# minha-receita-rs

Local command-line tool over the open CNPJ data of the Brazilian Receita
Federal: it downloads the monthly release from the Receita's WebDAV share,
turns the raw CSV files into Parquet partitioned by state (`uf`), and answers
lookups, filtered searches and raw SQL with DataFusion.

## Layout

- `src/` — the library, verified with Verus:
  - `text.rs`: character helpers (digits, quoting, path segments, decimal
    parsing and printing, white-space trimming, ASCII case) and the trusted
    calls to `str::to_lowercase` and `str::to_uppercase`;
  - `period.rs`: `Period` (`YYYY-MM`), its parser, its text and their laws;
  - `xml.rs`: the `href` entries of a WebDAV listing, read with `quick_xml`;
  - `download.rs`: periods and `.zip` names of a listing, download names,
    HTTP status and `Content-Length` checks, URLs;
  - `query.rs`: CNPJ normalization and the lookup and search SQL;
  - `transform.rs`: classification of raw files, raw schemas, archive entry
    decoding (`encoding_rs`), staging names, partition queries, the
    consolidation SQL;
  - `schema.rs`: the schema of the `companies` table;
  - `lifecycle.rs`, `cli.rs`, `output.rs`, `error.rs`: update decisions,
    commands, output formats, errors.
- `app/` — the program: HTTP, files, DataFusion sessions, Arrow output and
  the `clap` command line, all driving the library.
- `tests/` — tests of the library.

## Usage

```sh
minha-receita-rs init
minha-receita-rs update
minha-receita-rs lookup 12345678000190
minha-receita-rs search --uf=SP --cnae=4711-3/01 --bairro=Centro --limit=10
minha-receita-rs sql "SELECT uf, COUNT(*) FROM companies GROUP BY uf" --format csv
```

`MR_DATA` sets the data directory. `init` and `update` fall back to the
operating system's data directory; the query commands need `--data` or
`MR_DATA`.
