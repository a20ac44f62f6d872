//! The commands of the command-line tool, as plain values.

use vstd::prelude::*;
use crate::error::Error;
use crate::output::Format;
use crate::period::{parse_period_spec, Period};
use crate::query::SearchParams;

verus! {

/// The command line: one command.
#[derive(Debug, Clone)]
pub struct Cli {
    pub command: Command,
}

/// The commands of the tool.
#[derive(Debug, Clone)]
pub enum Command {
    /// First run: download and transform in one go.
    Init { root: Option<String>, period: Option<String>, concurrency: usize },
    /// Move to the latest published period, if there is a newer one.
    Update { root: Option<String>, concurrency: usize },
    /// Download the Receita archives and the IBGE table.
    Download { out: String, period: Option<String>, concurrency: usize },
    /// Turn downloaded archives into partitioned Parquet.
    Transform { input: String, out: String },
    /// Look one CNPJ up.
    Lookup { cnpj: String, query: QueryFlags },
    /// Filtered search.
    Search {
        uf: Option<String>,
        cnae: Option<String>,
        bairro: Option<String>,
        municipio: Option<String>,
        natureza: Option<String>,
        situacao: Option<String>,
        limit: usize,
        page: usize,
        query: QueryFlags,
    },
    /// Run raw SQL.
    Sql { query: String, flags: QueryFlags },
}

/// Where the data is, how to write results, and where to.
#[derive(Debug, Clone)]
pub struct QueryFlags {
    pub data: Option<String>,
    pub format: Format,
    pub output: Option<String>,
}

impl Command {
    /// The search that a `search` command asks for; `None` for any other
    /// command.
    pub fn search_params(&self) -> (r: Option<SearchParams>)
        ensures
            r is Some <==> self is Search,
            r matches Some(p) ==> (self matches Command::Search {
                uf,
                cnae,
                bairro,
                municipio,
                natureza,
                situacao,
                limit,
                page,
                ..
            } && p.uf == uf && p.cnae == cnae && p.bairro == bairro && p.municipio == municipio
                && p.natureza == natureza && p.situacao == situacao && p.limit == limit && p.page
                == page),
    {
        match self {
            Command::Search { uf, cnae, bairro, municipio, natureza, situacao, limit, page, .. } => {
                Some(
                    SearchParams {
                        uf: uf.clone(),
                        cnae: cnae.clone(),
                        bairro: bairro.clone(),
                        municipio: municipio.clone(),
                        natureza: natureza.clone(),
                        situacao: situacao.clone(),
                        limit: *limit,
                        page: *page,
                    },
                )
            },
            _ => None,
        }
    }
}

/// Reads the optional `--period` argument: nothing when it is absent, the
/// period when it is written `YYYY-MM`, `Error::InvalidPeriod` otherwise.
pub fn parse_period_arg(period: &Option<String>) -> (r: Result<Option<Period>, Error>)
    ensures
        period is None ==> r == Ok::<Option<Period>, Error>(None),
        period matches Some(s) ==> (r is Err <==> parse_period_spec(s@) is None),
        period matches Some(s) ==> (r matches Ok(p) ==> p == parse_period_spec(s@)),
        r matches Err(e) ==> (e matches Error::InvalidPeriod(t) && period matches Some(s) && t@
            == s@),
{
    match period {
        Some(s) => {
            let p = Period::parse(s.as_str())?;
            Ok(Some(p))
        },
        None => Ok(None),
    }
}

} // verus!
