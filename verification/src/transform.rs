//! The transformation step: which raw file is which source table, what each
//! table's columns are, how archive entries are decoded, and the SQL texts
//! that shape the consolidated table.

use vstd::prelude::*;
use crate::text::{
    all_ascii, ascii_lower, ascii_upper, lemma_ascii_case_round,
    chars_contain, chars_end_with, chars_of, contains, ends_with, escape_quotes, sanitize,
    spec_to_lowercase, spec_to_uppercase, to_lowercase, to_uppercase,
};
use crate::schema::{are_text_fields, is_plain, text_fields, DataKind, Field};
use crate::xml::views;

verus! {

/// What `Path::new(s).file_name()` returns, as text: the final component of
/// the path, or `None` when there is none (empty path, root, `..`).
pub uninterp spec fn spec_path_file_name(s: Seq<char>) -> Option<Seq<char>>;

/// Calls `Path::file_name` on `s`; the result is named by
/// `spec_path_file_name`.
#[verifier::external_body]
fn path_file_name(s: &str) -> (r: Option<String>)
    ensures
        r is None <==> spec_path_file_name(s@) is None,
        r matches Some(f) ==> spec_path_file_name(s@) == Some(f@),
{
    std::path::Path::new(s).file_name().and_then(|f| f.to_str()).map(|f| f.to_string())
}

/// What `encoding_rs::WINDOWS_1252.decode` returns for `bytes`: the text
/// decoded as windows-1252, or as UTF-8 / UTF-16 when the bytes start with
/// that encoding's byte order mark, with malformed sequences replaced.
pub uninterp spec fn spec_windows_1252_decode(bytes: Seq<u8>) -> Seq<char>;

/// Calls `encoding_rs::WINDOWS_1252.decode`; the result is named by
/// `spec_windows_1252_decode`. The call panics only when the size of its
/// output buffer overflows `usize`, which the bound on the length excludes.
#[verifier::external_body]
fn decode_windows_1252(bytes: &[u8]) -> (r: String)
    requires
        bytes@.len() <= usize::MAX / 4,
    ensures
        r@ == spec_windows_1252_decode(bytes@),
{
    encoding_rs::WINDOWS_1252.decode(bytes).0.into_owned()
}

/// The source tables, in the order they are registered.
pub open spec fn source_kind(i: int) -> Seq<char> {
    if i == 0 {
        "empresas"@
    } else if i == 1 {
        "estabelecimentos"@
    } else if i == 2 {
        "socios"@
    } else if i == 3 {
        "simples"@
    } else if i == 4 {
        "cnaes"@
    } else if i == 5 {
        "motivos"@
    } else if i == 6 {
        "municipios"@
    } else if i == 7 {
        "naturezas"@
    } else if i == 8 {
        "paises"@
    } else {
        "qualificacoes"@
    }
}

/// The two name fragments (in upper case) that mark a raw file of the
/// source `i`: the Receita's own suffix and the plain name.
pub open spec fn source_pattern(i: int, j: int) -> Seq<char> {
    if i == 0 {
        if j == 0 { "EMPRECSV"@ } else { "EMPRESAS"@ }
    } else if i == 1 {
        if j == 0 { "ESTABELE"@ } else { "ESTABELECIMENTOS"@ }
    } else if i == 2 {
        if j == 0 { "SOCIOCSV"@ } else { "SOCIOS"@ }
    } else if i == 3 {
        if j == 0 { "SIMPLES.CSV"@ } else { "SIMPLES"@ }
    } else if i == 4 {
        if j == 0 { "CNAECSV"@ } else { "CNAES"@ }
    } else if i == 5 {
        if j == 0 { "MOTICSV"@ } else { "MOTIVOS"@ }
    } else if i == 6 {
        if j == 0 { "MUNICCSV"@ } else { "MUNICIPIOS"@ }
    } else if i == 7 {
        if j == 0 { "NATJUCSV"@ } else { "NATUREZAS"@ }
    } else if i == 8 {
        if j == 0 { "PAISCSV"@ } else { "PAISES"@ }
    } else {
        if j == 0 { "QUALSCSV"@ } else { "QUALIFICACOES"@ }
    }
}

/// Whether the stem of a file name holds one of the fragments of source `i`.
pub open spec fn stem_matches(stem: Seq<char>, i: int) -> bool {
    contains(stem, source_pattern(i, 0)) || contains(stem, source_pattern(i, 1))
}

/// The first source, from `i` on, whose fragments the stem holds.
pub open spec fn first_source_from(stem: Seq<char>, i: int) -> Option<int>
    decreases 10 - i,
{
    if i >= 10 || i < 0 {
        None
    } else if stem_matches(stem, i) {
        Some(i)
    } else {
        first_source_from(stem, i + 1)
    }
}

/// The stem that classification looks at: the final path component of the
/// upper-cased name, or the whole upper-cased name when it has none.
pub open spec fn stem_of_name(name: Seq<char>) -> Seq<char> {
    let upper = spec_to_uppercase(name);
    match spec_path_file_name(upper) {
        Some(f) => f,
        None => upper,
    }
}

/// The source a raw file belongs to: the first source, in the order
/// empresas, estabelecimentos, socios, simples, cnaes, motivos, municipios,
/// naturezas, paises, qualificacoes, whose fragments its stem holds.
pub open spec fn classify_spec(name: Seq<char>) -> Option<Seq<char>> {
    match first_source_from(stem_of_name(name), 0) {
        Some(i) => Some(source_kind(i)),
        None => None,
    }
}

/// The name of source `i`.
fn source_kind_str(i: usize) -> (r: &'static str)
    requires
        i < 10,
    ensures
        r@ == source_kind(i as int),
{
    if i == 0 {
        "empresas"
    } else if i == 1 {
        "estabelecimentos"
    } else if i == 2 {
        "socios"
    } else if i == 3 {
        "simples"
    } else if i == 4 {
        "cnaes"
    } else if i == 5 {
        "motivos"
    } else if i == 6 {
        "municipios"
    } else if i == 7 {
        "naturezas"
    } else if i == 8 {
        "paises"
    } else {
        "qualificacoes"
    }
}

/// Fragment `j` of source `i`.
fn source_pattern_str(i: usize, j: usize) -> (r: &'static str)
    requires
        i < 10,
        j < 2,
    ensures
        r@ == source_pattern(i as int, j as int),
{
    if i == 0 {
        if j == 0 { "EMPRECSV" } else { "EMPRESAS" }
    } else if i == 1 {
        if j == 0 { "ESTABELE" } else { "ESTABELECIMENTOS" }
    } else if i == 2 {
        if j == 0 { "SOCIOCSV" } else { "SOCIOS" }
    } else if i == 3 {
        if j == 0 { "SIMPLES.CSV" } else { "SIMPLES" }
    } else if i == 4 {
        if j == 0 { "CNAECSV" } else { "CNAES" }
    } else if i == 5 {
        if j == 0 { "MOTICSV" } else { "MOTIVOS" }
    } else if i == 6 {
        if j == 0 { "MUNICCSV" } else { "MUNICIPIOS" }
    } else if i == 7 {
        if j == 0 { "NATJUCSV" } else { "NATUREZAS" }
    } else if i == 8 {
        if j == 0 { "PAISCSV" } else { "PAISES" }
    } else {
        if j == 0 { "QUALSCSV" } else { "QUALIFICACOES" }
    }
}

/// The stem of an upper-cased name: its final path component, or all of it
/// when it has none.
pub open spec fn stem_of_upper(upper: Seq<char>) -> Seq<char> {
    match spec_path_file_name(upper) {
        Some(f) => f,
        None => upper,
    }
}

/// The classification of an ASCII name, with upper-casing written out as the
/// ASCII case map that `str::to_uppercase` applies to ASCII text.
pub open spec fn classify_ascii(name: Seq<char>) -> Option<Seq<char>> {
    match first_source_from(stem_of_upper(ascii_upper(name)), 0) {
        Some(i) => Some(source_kind(i)),
        None => None,
    }
}

/// Classification ignores the case of ASCII names: a name, its lower case and
/// its upper case belong to the same source (with `classify`'s contract, this
/// gives `classify(name) == classify(lower) == classify(upper)`).
pub proof fn law_classify_ignores_ascii_case(name: Seq<char>)
    requires
        all_ascii(name),
    ensures
        all_ascii(ascii_lower(name)),
        all_ascii(ascii_upper(name)),
        classify_ascii(ascii_lower(name)) == classify_ascii(name),
        classify_ascii(ascii_upper(name)) == classify_ascii(name),
{
    lemma_ascii_case_round(name);
}

/// The source whose fragments a stem holds: the first, in the order
/// empresas, estabelecimentos, socios, simples, cnaes, motivos, municipios,
/// naturezas, paises, qualificacoes.
pub open spec fn source_of_stem(stem: Seq<char>) -> Option<Seq<char>> {
    match first_source_from(stem, 0) {
        Some(i) => Some(source_kind(i)),
        None => None,
    }
}

/// The source table of an upper-cased file stem, or `None` when the stem
/// holds no source's fragment.
pub fn classify_stem(stem: &str) -> (r: Option<&'static str>)
    ensures
        r is None <==> source_of_stem(stem@) is None,
        r matches Some(k) ==> source_of_stem(stem@) == Some(k@),
{
    let sc = chars_of(stem);
    let mut i: usize = 0;
    while i < 10
        invariant
            i <= 10,
            sc@ == stem@,
            first_source_from(stem@, 0) == first_source_from(stem@, i as int),
        decreases 10 - i,
    {
        let p0 = chars_of(source_pattern_str(i, 0));
        let p1 = chars_of(source_pattern_str(i, 1));
        if chars_contain(&sc, &p0) || chars_contain(&sc, &p1) {
            return Some(source_kind_str(i));
        }
        i = i + 1;
    }
    None
}

/// Which source table a raw file of the Receita belongs to, from its name
/// (`K3241.K03200Y0.D10110.EMPRECSV` or `Empresas0`), or `None` for a file
/// that belongs to none.
pub fn classify(name: &str) -> (r: Option<&'static str>)
    ensures
        r is None <==> classify_spec(name@) is None,
        r matches Some(k) ==> classify_spec(name@) == Some(k@),
        all_ascii(name@) ==> (r is None <==> classify_ascii(name@) is None),
        all_ascii(name@) ==> (r matches Some(k) ==> classify_ascii(name@) == Some(k@)),
{
    let upper = to_uppercase(name);
    assert(all_ascii(name@) ==> classify_spec(name@) == classify_ascii(name@));
    let stem = match path_file_name(upper.as_str()) {
        Some(f) => f,
        None => upper,
    };
    assert(stem@ == stem_of_name(name@));
    classify_stem(stem.as_str())
}

/// Whether two texts are equal.
fn str_equal(a: &str, b: &str) -> (r: bool)
    ensures
        r == (a@ == b@),
{
    let x = chars_of(a);
    let y = chars_of(b);
    if x.len() != y.len() {
        return false;
    }
    let mut i: usize = 0;
    while i < x.len()
        invariant
            i <= x@.len(),
            x@ == a@,
            y@ == b@,
            x@.len() == y@.len(),
            forall|k: int| 0 <= k < i ==> x@[k] == y@[k],
        decreases x.len() - i,
    {
        if x[i] != y[i] {
            return false;
        }
        i = i + 1;
    }
    assert(x@ =~= y@);
    true
}

/// The columns of the raw CSV files of each source, in file order. Every
/// column is read as nullable text.
pub open spec fn raw_columns(kind: Seq<char>) -> Option<Seq<Seq<char>>> {
    if kind == "empresas"@ {
        Some(
            seq![
                "cnpj_basico"@,
                "razao_social"@,
                "natureza_juridica"@,
                "qualificacao_responsavel"@,
                "capital_social_raw"@,
                "porte"@,
                "ente_federativo_responsavel"@,
            ],
        )
    } else if kind == "estabelecimentos"@ {
        Some(
            seq![
                "cnpj_basico"@,
                "cnpj_ordem"@,
                "cnpj_dv"@,
                "identificador_matriz_filial"@,
                "nome_fantasia"@,
                "situacao_cadastral_codigo"@,
                "data_situacao_cadastral_raw"@,
                "motivo_situacao_cadastral"@,
                "nome_cidade_exterior"@,
                "codigo_pais"@,
                "data_inicio_atividade_raw"@,
                "cnae_fiscal_principal"@,
                "cnae_fiscal_secundaria"@,
                "tipo_logradouro"@,
                "logradouro"@,
                "numero"@,
                "complemento"@,
                "bairro"@,
                "cep"@,
                "uf"@,
                "codigo_municipio"@,
                "ddd1"@,
                "telefone1"@,
                "ddd2"@,
                "telefone2"@,
                "ddd_fax"@,
                "fax"@,
                "email"@,
                "situacao_especial"@,
                "data_situacao_especial_raw"@,
            ],
        )
    } else if kind == "socios"@ {
        Some(
            seq![
                "cnpj_basico"@,
                "identificador_de_socio"@,
                "nome_socio"@,
                "cnpj_cpf_do_socio"@,
                "codigo_qualificacao_socio"@,
                "data_entrada_sociedade_raw"@,
                "codigo_pais"@,
                "cpf_representante_legal"@,
                "nome_representante_legal"@,
                "codigo_qualificacao_representante_legal"@,
                "codigo_faixa_etaria"@,
            ],
        )
    } else if kind == "simples"@ {
        Some(
            seq![
                "cnpj_basico"@,
                "opcao_pelo_simples_raw"@,
                "data_opcao_pelo_simples_raw"@,
                "data_exclusao_do_simples_raw"@,
                "opcao_pelo_mei_raw"@,
                "data_opcao_pelo_mei_raw"@,
                "data_exclusao_do_mei_raw"@,
            ],
        )
    } else if kind == "cnaes"@ || kind == "motivos"@ || kind == "naturezas"@ || kind == "paises"@
        || kind == "qualificacoes"@ || kind == "municipios"@ {
        Some(seq!["codigo"@, "descricao"@])
    } else {
        None
    }
}

/// The fields of the raw CSV files of a source, in file order: every column
/// is nullable text. `None` for an unknown source.
pub fn raw_fields(kind: &str) -> (r: Option<Vec<Field>>)
    ensures
        r is None <==> raw_columns(kind@) is None,
        r matches Some(fs) ==> are_text_fields(fs@, raw_columns(kind@).unwrap()),
{
    if str_equal(kind, "empresas") {
        let a: [&'static str; 7] = [
            "cnpj_basico",
            "razao_social",
            "natureza_juridica",
            "qualificacao_responsavel",
            "capital_social_raw",
            "porte",
            "ente_federativo_responsavel",
        ];
        let r = named_text_fields(&a);
        assert(a@.map_values(|s: &'static str| s@) =~= raw_columns(kind@).unwrap());
        Some(r)
    } else if str_equal(kind, "estabelecimentos") {
        let a: [&'static str; 30] = [
            "cnpj_basico",
            "cnpj_ordem",
            "cnpj_dv",
            "identificador_matriz_filial",
            "nome_fantasia",
            "situacao_cadastral_codigo",
            "data_situacao_cadastral_raw",
            "motivo_situacao_cadastral",
            "nome_cidade_exterior",
            "codigo_pais",
            "data_inicio_atividade_raw",
            "cnae_fiscal_principal",
            "cnae_fiscal_secundaria",
            "tipo_logradouro",
            "logradouro",
            "numero",
            "complemento",
            "bairro",
            "cep",
            "uf",
            "codigo_municipio",
            "ddd1",
            "telefone1",
            "ddd2",
            "telefone2",
            "ddd_fax",
            "fax",
            "email",
            "situacao_especial",
            "data_situacao_especial_raw",
        ];
        let r = named_text_fields(&a);
        assert(a@.map_values(|s: &'static str| s@) =~= raw_columns(kind@).unwrap());
        Some(r)
    } else if str_equal(kind, "socios") {
        let a: [&'static str; 11] = [
            "cnpj_basico",
            "identificador_de_socio",
            "nome_socio",
            "cnpj_cpf_do_socio",
            "codigo_qualificacao_socio",
            "data_entrada_sociedade_raw",
            "codigo_pais",
            "cpf_representante_legal",
            "nome_representante_legal",
            "codigo_qualificacao_representante_legal",
            "codigo_faixa_etaria",
        ];
        let r = named_text_fields(&a);
        assert(a@.map_values(|s: &'static str| s@) =~= raw_columns(kind@).unwrap());
        Some(r)
    } else if str_equal(kind, "simples") {
        let a: [&'static str; 7] = [
            "cnpj_basico",
            "opcao_pelo_simples_raw",
            "data_opcao_pelo_simples_raw",
            "data_exclusao_do_simples_raw",
            "opcao_pelo_mei_raw",
            "data_opcao_pelo_mei_raw",
            "data_exclusao_do_mei_raw",
        ];
        let r = named_text_fields(&a);
        assert(a@.map_values(|s: &'static str| s@) =~= raw_columns(kind@).unwrap());
        Some(r)
    } else if str_equal(kind, "cnaes") || str_equal(kind, "motivos") || str_equal(kind, "naturezas")
        || str_equal(kind, "paises") || str_equal(kind, "qualificacoes") || str_equal(
        kind,
        "municipios",
    ) {
        let a: [&'static str; 2] = ["codigo", "descricao"];
        let r = named_text_fields(&a);
        assert(a@.map_values(|s: &'static str| s@) =~= raw_columns(kind@).unwrap());
        Some(r)
    } else {
        None
    }
}

/// Nullable text fields named by the texts `a`.
fn named_text_fields(a: &[&'static str]) -> (r: Vec<Field>)
    ensures
        are_text_fields(r@, a@.map_values(|s: &'static str| s@)),
{
    let r = text_fields(a);
    let ghost cols = a@.map_values(|s: &'static str| s@);
    assert forall|i: int| 0 <= i < r@.len() implies is_plain(#[trigger] r@[i], cols[i], DataKind::Utf8, true) by {
        assert(r@[i].name == a@[i]);
    }
    r
}

/// The names of `fs`, in order.
fn field_names(fs: &Vec<Field>) -> (r: Vec<String>)
    ensures
        views(r@) == fs@.map_values(|f: Field| f.name@),
{
    let mut r: Vec<String> = Vec::new();
    let mut i: usize = 0;
    while i < fs.len()
        invariant
            i <= fs@.len(),
            views(r@) == fs@.take(i as int).map_values(|f: Field| f.name@),
        decreases fs.len() - i,
    {
        let ghost before = r@;
        r.push(String::from_str(fs[i].name));
        assert(fs@.take(i + 1).map_values(|f: Field| f.name@) == fs@.take(i as int).map_values(
            |f: Field| f.name@,
        ).push(fs@[i as int].name@));
        assert(views(r@) == views(before).push(r@.last()@));
        i = i + 1;
    }
    assert(fs@.take(fs@.len() as int) == fs@);
    r
}

/// The column names of the raw CSV files of a source (every column is
/// nullable text), or `None` for an unknown source.
pub fn raw_schema(kind: &str) -> (r: Option<Vec<String>>)
    ensures
        r is None <==> raw_columns(kind@) is None,
        r matches Some(cols) ==> raw_columns(kind@) == Some(views(cols@)),
        kind@ == "estabelecimentos"@ ==> (r matches Some(cols) && views(cols@) == seq![
                    "cnpj_basico"@,
                    "cnpj_ordem"@,
                    "cnpj_dv"@,
                    "identificador_matriz_filial"@,
                    "nome_fantasia"@,
                    "situacao_cadastral_codigo"@,
                    "data_situacao_cadastral_raw"@,
                    "motivo_situacao_cadastral"@,
                    "nome_cidade_exterior"@,
                    "codigo_pais"@,
                    "data_inicio_atividade_raw"@,
                    "cnae_fiscal_principal"@,
                    "cnae_fiscal_secundaria"@,
                    "tipo_logradouro"@,
                    "logradouro"@,
                    "numero"@,
                    "complemento"@,
                    "bairro"@,
                    "cep"@,
                    "uf"@,
                    "codigo_municipio"@,
                    "ddd1"@,
                    "telefone1"@,
                    "ddd2"@,
                    "telefone2"@,
                    "ddd_fax"@,
                    "fax"@,
                    "email"@,
                    "situacao_especial"@,
                    "data_situacao_especial_raw"@,
                ]),
{
    proof {
        law_establishment_layout();
    }
    match raw_fields(kind) {
        Some(fs) => {
            let names = field_names(&fs);
            assert(views(names@) =~= raw_columns(kind@).unwrap());
            Some(names)
        },
        None => None,
    }
}

/// The establishments file of the Receita layout: its thirty columns, in file
/// order. The CNPJ of a row is read from its first three columns: the root,
/// then the order number, then the check digits; every other raw layout with
/// a CNPJ starts with its root.
pub proof fn law_establishment_layout()
    ensures
        raw_columns("estabelecimentos"@) == Some(seq![
            "cnpj_basico"@,
            "cnpj_ordem"@,
            "cnpj_dv"@,
            "identificador_matriz_filial"@,
            "nome_fantasia"@,
            "situacao_cadastral_codigo"@,
            "data_situacao_cadastral_raw"@,
            "motivo_situacao_cadastral"@,
            "nome_cidade_exterior"@,
            "codigo_pais"@,
            "data_inicio_atividade_raw"@,
            "cnae_fiscal_principal"@,
            "cnae_fiscal_secundaria"@,
            "tipo_logradouro"@,
            "logradouro"@,
            "numero"@,
            "complemento"@,
            "bairro"@,
            "cep"@,
            "uf"@,
            "codigo_municipio"@,
            "ddd1"@,
            "telefone1"@,
            "ddd2"@,
            "telefone2"@,
            "ddd_fax"@,
            "fax"@,
            "email"@,
            "situacao_especial"@,
            "data_situacao_especial_raw"@,
        ]),
        raw_columns("estabelecimentos"@).unwrap().take(3) == seq!["cnpj_basico"@, "cnpj_ordem"@, "cnpj_dv"@],
        raw_columns("empresas"@).unwrap()[0] == "cnpj_basico"@,
        raw_columns("socios"@).unwrap()[0] == "cnpj_basico"@,
        raw_columns("simples"@).unwrap()[0] == "cnpj_basico"@,
{
    reveal_strlit("empresas");
    reveal_strlit("estabelecimentos");
    reveal_strlit("socios");
    reveal_strlit("simples");
    assert("estabelecimentos"@.len() != "empresas"@.len());
    assert(raw_columns("estabelecimentos"@) is Some);
    let c = raw_columns("estabelecimentos"@).unwrap();
    assert(c.len() == 30);
    assert(c.take(3) =~= seq!["cnpj_basico"@, "cnpj_ordem"@, "cnpj_dv"@]);
}

/// The name of the `i`-th source table, in the order the tables are
/// registered.
pub open spec fn registered_source(i: int) -> Seq<char> {
    if i == 0 {
        "empresas"@
    } else if i == 1 {
        "estabelecimentos"@
    } else if i == 2 {
        "socios"@
    } else if i == 3 {
        "simples"@
    } else if i == 4 {
        "cnaes"@
    } else if i == 5 {
        "motivos"@
    } else if i == 6 {
        "naturezas"@
    } else if i == 7 {
        "paises"@
    } else if i == 8 {
        "qualificacoes"@
    } else {
        "municipios"@
    }
}

/// The source tables to register, in order.
pub fn registered_sources() -> (r: Vec<&'static str>)
    ensures
        r@.len() == 10,
        forall|i: int| 0 <= i < 10 ==> #[trigger] r@[i]@ == registered_source(i),
{
    let r = vec![
        "empresas",
        "estabelecimentos",
        "socios",
        "simples",
        "cnaes",
        "motivos",
        "naturezas",
        "paises",
        "qualificacoes",
        "municipios",
    ];
    r
}

/// Every source table that is registered has a schema for its raw files, so
/// registering the sources never meets an unknown one.
pub proof fn law_registered_sources_have_schemas(i: int)
    requires
        0 <= i < 10,
    ensures
        raw_columns(registered_source(i)) is Some,
{
}

/// Every source that a raw file is classified into is one of the registered
/// sources, so every staged file is read by some table.
pub proof fn law_classified_files_are_registered(name: Seq<char>)
    requires
        classify_spec(name) is Some,
    ensures
        exists|i: int| 0 <= i < 10 && registered_source(i) == classify_spec(name).unwrap(),
        raw_columns(classify_spec(name).unwrap()) is Some,
{
    let k: int = first_source_from(stem_of_name(name), 0).unwrap();
    lemma_first_source_in_range(stem_of_name(name), 0);
    if k == 6 {
        assert(registered_source(9) == source_kind(6));
    } else if k == 7 {
        assert(registered_source(6) == source_kind(7));
    } else if k == 8 {
        assert(registered_source(7) == source_kind(8));
    } else if k == 9 {
        assert(registered_source(8) == source_kind(9));
    } else {
        assert(registered_source(k) == source_kind(k));
    }
}

proof fn lemma_first_source_in_range(stem: Seq<char>, i: int)
    requires
        0 <= i,
    ensures
        first_source_from(stem, i) matches Some(k) ==> i <= k < 10,
    decreases 10 - i,
{
    if i < 10 && !stem_matches(stem, i) {
        lemma_first_source_in_range(stem, i + 1);
    }
}

/// What an entry of a ZIP archive becomes once extracted.
#[derive(Debug, Clone, PartialEq, Eq)]
pub enum EntryContent {
    /// A directory entry (its name ends with `/`): nothing is written.
    Directory,
    /// An inner ZIP archive: written as it is.
    Binary(Vec<u8>),
    /// A text payload: decoded from windows-1252 and written as UTF-8.
    Text(String),
}

/// Whether an archive entry is a directory.
pub open spec fn is_directory_entry_spec(name: Seq<char>) -> bool {
    ends_with(name, "/"@)
}

/// Whether an archive entry is an inner ZIP archive: its lower-cased name
/// ends with `.zip`.
pub open spec fn is_zip_entry_spec(name: Seq<char>) -> bool {
    ends_with(spec_to_lowercase(name), ".zip"@)
}

/// Whether an archive entry is a directory (its name ends with `/`).
pub fn is_directory_entry(name: &str) -> (r: bool)
    ensures
        r == is_directory_entry_spec(name@),
{
    let v = chars_of(name);
    let slash = chars_of("/");
    chars_end_with(&v, &slash)
}

/// What is written for an archive entry: nothing for a directory, the bytes
/// themselves for an inner ZIP, and the windows-1252 decoding of the bytes
/// for anything else (the Receita ships its CSVs in that encoding).
pub fn entry_content(name: &str, bytes: Vec<u8>) -> (r: EntryContent)
    requires
        bytes@.len() <= usize::MAX / 4,
    ensures
        is_directory_entry_spec(name@) ==> r is Directory,
        !is_directory_entry_spec(name@) && is_zip_entry_spec(name@) ==> r == EntryContent::Binary(
            bytes,
        ),
        !is_directory_entry_spec(name@) && !is_zip_entry_spec(name@) ==> (r matches EntryContent::Text(t)
            && t@ == spec_windows_1252_decode(bytes@)),
{
    if is_directory_entry(name) {
        return EntryContent::Directory;
    }
    let lower = chars_of(to_lowercase(name).as_str());
    let zip = chars_of(".zip");
    if chars_end_with(&lower, &zip) {
        EntryContent::Binary(bytes)
    } else {
        EntryContent::Text(decode_windows_1252(bytes.as_slice()))
    }
}

/// Where a raw file goes in the staging area: the directory of its source
/// and its name with `.csv` appended; `None` for a file of no source.
pub fn staging_target(name: &str) -> (r: Option<(&'static str, String)>)
    ensures
        r is None <==> classify_spec(name@) is None,
        r matches Some((k, f)) ==> classify_spec(name@) == Some(k@) && f@ == name@ + ".csv"@,
{
    match classify(name) {
        Some(k) => {
            let mut f = String::from_str(name);
            f.append(".csv");
            Some((k, f))
        },
        None => None,
    }
}

/// The query that selects the rows of one state (`uf`) from the staging
/// table, without the `uf` column.
pub fn partition_query(uf: &str) -> (r: String)
    ensures
        r@ == "SELECT * EXCEPT(uf) FROM staging WHERE uf = '"@ + escape_quotes(uf@) + "'"@,
{
    let mut q = String::from_str("SELECT * EXCEPT(uf) FROM staging WHERE uf = '");
    let e = sanitize(uf);
    q.append(e.as_str());
    q.append("'");
    q
}

/// The directory of one state's partition: `uf=<UF>`.
pub fn partition_dir_name(uf: &str) -> (r: String)
    ensures
        r@ == "uf="@ + uf@,
{
    let mut d = String::from_str("uf=");
    d.append(uf);
    d
}

/// The states of the staging table, in the order listed, without the null
/// entries.
pub fn collect_ufs(values: &Vec<Option<String>>) -> (r: Vec<String>)
    ensures
        views(r@) == present_values(values@),
        views(r@) == values@.filter_map(|o: Option<String>| present_text(o)),
        forall|i: int| #![trigger values@[i]] 0 <= i < values@.len() && values@[i] is Some
            ==> views(r@).contains(values@[i].unwrap()@),
        forall|j: int| #![trigger r@[j]] 0 <= j < r@.len() ==> exists|i: int|
            0 <= i < values@.len() && #[trigger] present_text(values@[i]) == Some(r@[j]@),
{
    proof {
        law_present_values_keeps_every_state(values@);
    }
    let mut r: Vec<String> = Vec::new();
    let mut i: usize = 0;
    while i < values.len()
        invariant
            i <= values@.len(),
            views(r@) == present_values(values@.take(i as int)),
        decreases values.len() - i,
    {
        assert(values@.take(i + 1).drop_last() == values@.take(i as int));
        match &values[i] {
            Some(u) => {
                let ghost before = r@;
                r.push(u.clone());
                assert(views(r@) == views(before).push(r@.last()@));
            },
            None => {},
        }
        i = i + 1;
    }
    assert(values@.take(values@.len() as int) == values@);
    assert forall|j: int| #![trigger r@[j]] 0 <= j < r@.len() implies exists|i: int|
        0 <= i < values@.len() && #[trigger] present_text(values@[i]) == Some(r@[j]@) by {
        assert(views(r@)[j] == r@[j]@);
        let pv = present_values(values@);
        assert(pv[j] == views(r@)[j]);
        let k = choose|k: int| 0 <= k < values@.len() && #[trigger] present_text(values@[k]) == Some(pv[j]);
        assert(present_text(values@[k]) == Some(r@[j]@));
    }
    r
}

/// The texts of the non-null entries of `vs`, in order.
pub open spec fn present_values(vs: Seq<Option<String>>) -> Seq<Seq<char>>
    decreases vs.len(),
{
    if vs.len() == 0 {
        Seq::empty()
    } else {
        match vs.last() {
            Some(s) => present_values(vs.drop_last()).push(s@),
            None => present_values(vs.drop_last()),
        }
    }
}

/// Whether a file name has the extension `zip`, as `Path::extension` reads
/// it: the part after the last dot, where a name whose only dot is its first
/// character has no extension.
pub open spec fn has_zip_extension(name: Seq<char>) -> bool {
    ends_with(name, ".zip"@) && name.len() > 4
}

/// Whether a downloaded file is a ZIP archive, by its extension `zip`.
pub fn is_zip_archive_name(name: &str) -> (r: bool)
    ensures
        r == has_zip_extension(name@),
{
    let v = chars_of(name);
    let zip = chars_of(".zip");
    v.len() > 4 && chars_end_with(&v, &zip)
}

/// The columns of the IBGE municipality table as the file holds them: TOM
/// code, CNPJ, name, state, IBGE code, all nullable text.
pub fn ibge_raw_fields() -> (r: Vec<Field>)
    ensures
        are_text_fields(r@, seq!["codigo_tom"@, "cnpj"@, "nome"@, "uf"@, "codigo_ibge"@]),
{
    let a: [&'static str; 5] = ["codigo_tom", "cnpj", "nome", "uf", "codigo_ibge"];
    let r = named_text_fields(&a);
    assert(a@.map_values(|s: &'static str| s@) =~= seq!["codigo_tom"@, "cnpj"@, "nome"@, "uf"@, "codigo_ibge"@]);
    r
}

/// The columns of the registered `ibge` table: the TOM code as read, then
/// the name, state and IBGE code with surrounding spaces trimmed.
pub fn ibge_fields() -> (r: Vec<Field>)
    ensures
        are_text_fields(r@, seq!["codigo_tom"@, "nome"@, "uf"@, "codigo_ibge"@]),
{
    let a: [&'static str; 4] = ["codigo_tom", "nome", "uf", "codigo_ibge"];
    let r = named_text_fields(&a);
    assert(a@.map_values(|s: &'static str| s@) =~= seq!["codigo_tom"@, "nome"@, "uf"@, "codigo_ibge"@]);
    r
}

/// The value of a present entry, `None` for a null one.
pub open spec fn present_text(o: Option<String>) -> Option<Seq<char>> {
    match o {
        Some(s) => Some(s@),
        None => None,
    }
}

/// The states kept from a column are exactly its non-null entries, in order:
/// the column filtered of nulls (vstd's `filter_map`). In particular every
/// non-null state is kept, and every kept state is one of the column's.
pub proof fn law_present_values_keeps_every_state(vs: Seq<Option<String>>)
    ensures
        present_values(vs) == vs.filter_map(|o: Option<String>| present_text(o)),
        forall|i: int| #![trigger vs[i]] 0 <= i < vs.len() && vs[i] is Some ==> present_values(
            vs,
        ).contains(vs[i].unwrap()@),
        forall|j: int| #![trigger present_values(vs)[j]] 0 <= j < present_values(vs).len()
            ==> exists|i: int| 0 <= i < vs.len() && #[trigger] present_text(vs[i]) == Some(
                present_values(vs)[j],
            ),
        present_values(vs).len() <= vs.len(),
    decreases vs.len(),
{
    if vs.len() > 0 {
        let u = vs.drop_last();
        law_present_values_keeps_every_state(u);
        let pu = present_values(u);
        let pv = present_values(vs);
        let n = vs.len() - 1;
        assert forall|i: int| 0 <= i < n implies #[trigger] u[i] == vs[i] by {}
        match vs.last() {
            Some(x) => {
                assert(pv == pu.push(x@));
                assert(pu.push(x@) =~= pu + seq![x@]);
                assert(pv[pv.len() - 1] == x@);
            },
            None => {
                assert(pv == pu);
            },
        }
        assert forall|i: int| #![trigger vs[i]] 0 <= i < vs.len() && vs[i] is Some implies pv.contains(
            vs[i].unwrap()@,
        ) by {
            if i < n {
                assert(u[i] == vs[i]);
                let k = choose|k: int| 0 <= k < pu.len() && pu[k] == u[i].unwrap()@;
                assert(pv[k] == pu[k]);
            } else {
                assert(pv[pv.len() - 1] == vs[i].unwrap()@);
            }
        }
        assert forall|j: int| #![trigger pv[j]] 0 <= j < pv.len() implies exists|i: int|
            0 <= i < vs.len() && #[trigger] present_text(vs[i]) == Some(pv[j]) by {
            if j < pu.len() {
                assert(pv[j] == pu[j]);
                assert(pu[j] == present_values(u)[j]);
                let i = choose|i: int|
                    0 <= i < u.len() && #[trigger] present_text(u[i]) == Some(pu[j]);
                assert(vs[i] == u[i]);
                assert(present_text(vs[i]) == Some(pv[j]));
            } else {
                assert(vs[n] is Some);
                assert(present_text(vs[n]) == Some(pv[j]));
            }
        }
    }
}

/// The query that lists the states present in the staging table.
pub const DISTINCT_UF_SQL: &'static str = "SELECT DISTINCT CAST(uf AS VARCHAR) AS uf FROM staging WHERE uf IS NOT NULL ORDER BY uf";

/// The single query that joins all raw tables into one row per establishment,
/// with `qsa` and `cnaes_secundarios` as lists of structs. Dates `YYYYMMDD`
/// become dates, with empty or `00000000` values as NULL; `S`/`N` flags
/// become booleans.
pub const CONSOLIDATION_SQL: &'static str = r#"
WITH
socios_agg AS (
    SELECT
        s.cnpj_basico,
        array_agg(named_struct(
            'identificador_de_socio', try_cast(s.identificador_de_socio AS INT),
            'nome_socio', s.nome_socio,
            'cnpj_cpf_do_socio', s.cnpj_cpf_do_socio,
            'codigo_qualificacao_socio', try_cast(s.codigo_qualificacao_socio AS INT),
            'qualificacao_socio', qs.descricao,
            'data_entrada_sociedade', CASE
                WHEN s.data_entrada_sociedade_raw IS NULL
                  OR length(s.data_entrada_sociedade_raw) = 0
                  OR s.data_entrada_sociedade_raw = '00000000'
                THEN NULL
                ELSE to_date(s.data_entrada_sociedade_raw, '%Y%m%d')
            END,
            'codigo_pais', s.codigo_pais,
            'pais', ps.descricao,
            'cpf_representante_legal', s.cpf_representante_legal,
            'nome_representante_legal', s.nome_representante_legal,
            'codigo_qualificacao_representante_legal', try_cast(s.codigo_qualificacao_representante_legal AS INT),
            'qualificacao_representante_legal', qrl.descricao,
            'codigo_faixa_etaria', try_cast(s.codigo_faixa_etaria AS INT)
        )) AS qsa
    FROM socios s
    LEFT JOIN qualificacoes qs ON qs.codigo = s.codigo_qualificacao_socio
    LEFT JOIN qualificacoes qrl ON qrl.codigo = s.codigo_qualificacao_representante_legal
    LEFT JOIN paises ps ON ps.codigo = s.codigo_pais
    GROUP BY s.cnpj_basico
),
cnaes_sec_exploded AS (
    SELECT
        concat(est.cnpj_basico, est.cnpj_ordem, est.cnpj_dv) AS cnpj,
        unnest(string_to_array(est.cnae_fiscal_secundaria, ',')) AS code
    FROM estabelecimentos est
    WHERE est.cnae_fiscal_secundaria IS NOT NULL
      AND length(est.cnae_fiscal_secundaria) > 0
),
cnaes_sec_resolved AS (
    SELECT
        e.cnpj,
        array_agg(named_struct('codigo', c.codigo, 'descricao', c.descricao)) AS cnaes_secundarios
    FROM cnaes_sec_exploded e
    LEFT JOIN cnaes c ON c.codigo = e.code
    GROUP BY e.cnpj
)
SELECT
    concat(est.cnpj_basico, est.cnpj_ordem, est.cnpj_dv) AS cnpj,
    est.cnpj_basico AS cnpj_raiz,
    emp.razao_social,
    est.nome_fantasia,
    CASE est.situacao_cadastral_codigo
        WHEN '01' THEN 'NULA'
        WHEN '02' THEN 'ATIVA'
        WHEN '03' THEN 'SUSPENSA'
        WHEN '04' THEN 'INAPTA'
        WHEN '08' THEN 'BAIXADA'
        ELSE est.situacao_cadastral_codigo
    END AS situacao_cadastral,
    CASE
        WHEN est.data_situacao_cadastral_raw IS NULL
          OR length(est.data_situacao_cadastral_raw) = 0
          OR est.data_situacao_cadastral_raw = '00000000'
        THEN NULL
        ELSE to_date(est.data_situacao_cadastral_raw, '%Y%m%d')
    END AS data_situacao_cadastral,
    named_struct('codigo', est.motivo_situacao_cadastral, 'descricao', mot.descricao) AS motivo_situacao_cadastral,
    CASE
        WHEN est.data_inicio_atividade_raw IS NULL
          OR length(est.data_inicio_atividade_raw) = 0
          OR est.data_inicio_atividade_raw = '00000000'
        THEN NULL
        ELSE to_date(est.data_inicio_atividade_raw, '%Y%m%d')
    END AS data_inicio_atividade,
    named_struct('codigo', est.cnae_fiscal_principal, 'descricao', cf.descricao) AS cnae_fiscal,
    csr.cnaes_secundarios,
    named_struct('codigo', emp.natureza_juridica, 'descricao', nat.descricao) AS natureza_juridica,
    named_struct('codigo', emp.qualificacao_responsavel, 'descricao', qr.descricao) AS qualificacao_responsavel,
    try_cast(replace(emp.capital_social_raw, ',', '.') AS DOUBLE) AS capital_social,
    named_struct(
        'codigo', emp.porte,
        'descricao', CASE emp.porte
            WHEN '01' THEN 'NAO INFORMADO'
            WHEN '03' THEN 'MICRO EMPRESA'
            WHEN '05' THEN 'EMPRESA DE PEQUENO PORTE'
            ELSE 'DEMAIS'
        END
    ) AS porte,
    emp.ente_federativo_responsavel,
    est.uf,
    named_struct(
        'codigo', est.codigo_municipio,
        'codigo_ibge', ibge.codigo_ibge,
        'descricao', mun.descricao
    ) AS municipio,
    named_struct('codigo', est.codigo_pais, 'descricao', pae.descricao) AS pais,
    named_struct(
        'tipo_logradouro', est.tipo_logradouro,
        'logradouro', est.logradouro,
        'numero', est.numero,
        'complemento', est.complemento,
        'bairro', est.bairro,
        'cep', est.cep
    ) AS endereco,
    est.email,
    array_remove(
        make_array(
            CASE WHEN est.telefone1 IS NOT NULL AND length(est.telefone1) > 0
                 THEN concat(coalesce(est.ddd1, ''), est.telefone1) END,
            CASE WHEN est.telefone2 IS NOT NULL AND length(est.telefone2) > 0
                 THEN concat(coalesce(est.ddd2, ''), est.telefone2) END
        ), NULL
    ) AS telefones,
    sa.qsa,
    CASE WHEN sim.opcao_pelo_simples_raw = 'S' THEN true
         WHEN sim.opcao_pelo_simples_raw = 'N' THEN false
         ELSE NULL END AS opcao_pelo_simples,
    CASE
        WHEN sim.data_opcao_pelo_simples_raw IS NULL
          OR length(sim.data_opcao_pelo_simples_raw) = 0
          OR sim.data_opcao_pelo_simples_raw = '00000000'
        THEN NULL
        ELSE to_date(sim.data_opcao_pelo_simples_raw, '%Y%m%d')
    END AS data_opcao_pelo_simples,
    CASE
        WHEN sim.data_exclusao_do_simples_raw IS NULL
          OR length(sim.data_exclusao_do_simples_raw) = 0
          OR sim.data_exclusao_do_simples_raw = '00000000'
        THEN NULL
        ELSE to_date(sim.data_exclusao_do_simples_raw, '%Y%m%d')
    END AS data_exclusao_do_simples,
    CASE WHEN sim.opcao_pelo_mei_raw = 'S' THEN true
         WHEN sim.opcao_pelo_mei_raw = 'N' THEN false
         ELSE NULL END AS opcao_pelo_mei,
    CASE
        WHEN sim.data_opcao_pelo_mei_raw IS NULL
          OR length(sim.data_opcao_pelo_mei_raw) = 0
          OR sim.data_opcao_pelo_mei_raw = '00000000'
        THEN NULL
        ELSE to_date(sim.data_opcao_pelo_mei_raw, '%Y%m%d')
    END AS data_opcao_pelo_mei,
    CASE
        WHEN sim.data_exclusao_do_mei_raw IS NULL
          OR length(sim.data_exclusao_do_mei_raw) = 0
          OR sim.data_exclusao_do_mei_raw = '00000000'
        THEN NULL
        ELSE to_date(sim.data_exclusao_do_mei_raw, '%Y%m%d')
    END AS data_exclusao_do_mei
FROM estabelecimentos est
LEFT JOIN empresas emp ON emp.cnpj_basico = est.cnpj_basico
LEFT JOIN cnaes cf ON cf.codigo = est.cnae_fiscal_principal
LEFT JOIN naturezas nat ON nat.codigo = emp.natureza_juridica
LEFT JOIN qualificacoes qr ON qr.codigo = emp.qualificacao_responsavel
LEFT JOIN motivos mot ON mot.codigo = est.motivo_situacao_cadastral
LEFT JOIN municipios mun ON mun.codigo = est.codigo_municipio
LEFT JOIN paises pae ON pae.codigo = est.codigo_pais
LEFT JOIN ibge ON ibge.codigo_tom = est.codigo_municipio
LEFT JOIN socios_agg sa ON sa.cnpj_basico = est.cnpj_basico
LEFT JOIN cnaes_sec_resolved csr ON csr.cnpj = concat(est.cnpj_basico, est.cnpj_ordem, est.cnpj_dv)
LEFT JOIN simples sim ON sim.cnpj_basico = est.cnpj_basico
"#;

} // verus!
