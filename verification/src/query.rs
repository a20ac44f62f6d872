//! The SQL that the queries send: CNPJ lookup and filtered search.

use vstd::prelude::*;
use crate::error::Error;
use crate::text::{decimal, escape_quotes, keep_digits, only_digits, push_decimal, sanitize};

verus! {

/// The filters and the page of a search. Every filter that is set must hold.
#[derive(Debug, Clone)]
pub struct SearchParams {
    pub uf: Option<String>,
    pub cnae: Option<String>,
    pub bairro: Option<String>,
    pub municipio: Option<String>,
    pub natureza: Option<String>,
    pub situacao: Option<String>,
    pub limit: usize,
    pub page: usize,
}

impl Default for SearchParams {
    fn default() -> (r: SearchParams)
        ensures
            r.uf is None && r.cnae is None && r.bairro is None && r.municipio is None
                && r.natureza is None && r.situacao is None && r.limit == 0 && r.page == 0,
    {
        SearchParams {
            uf: None,
            cnae: None,
            bairro: None,
            municipio: None,
            natureza: None,
            situacao: None,
            limit: 0,
            page: 0,
        }
    }
}

/// The CNPJ that a text names: its digits, if there are exactly 14.
pub open spec fn cnpj_spec(s: Seq<char>) -> Option<Seq<char>> {
    if only_digits(s).len() == 14 {
        Some(only_digits(s))
    } else {
        None
    }
}

/// Keeps the digits of a CNPJ written with or without punctuation
/// (`12.345.678/0001-90`); `Error::InvalidCnpj` with the text when they are
/// not exactly 14.
pub fn normalize_cnpj(s: &str) -> (r: Result<String, Error>)
    ensures
        r is Ok <==> cnpj_spec(s@) is Some,
        r is Ok <==> only_digits(s@).len() == 14,
        r matches Ok(c) ==> c@ == only_digits(s@),
        r matches Ok(c) ==> cnpj_spec(s@) == Some(c@),
        r matches Err(e) ==> (e matches Error::InvalidCnpj(t) && t@ == s@),
{
    let cleaned = keep_digits(s);
    if cleaned.unicode_len() != 14 {
        return Err(Error::InvalidCnpj(String::from_str(s)));
    }
    Ok(cleaned)
}

/// The CNAE code of a text: its digits, so that `4711-3/01` and `4711301`
/// name the same code.
pub fn normalize_cnae(s: &str) -> (r: String)
    ensures
        r@ == only_digits(s@),
{
    keep_digits(s)
}

/// The query that looks a CNPJ up.
pub open spec fn lookup_sql_spec(cnpj: Seq<char>) -> Seq<char> {
    "SELECT * FROM companies WHERE cnpj = '"@ + escape_quotes(cnpj) + "'"@
}

/// The query for one CNPJ, written with or without punctuation;
/// `Error::InvalidCnpj` when it does not have 14 digits.
pub fn lookup_sql(cnpj: &str) -> (r: Result<String, Error>)
    ensures
        r is Ok <==> cnpj_spec(cnpj@) is Some,
        r is Ok <==> only_digits(cnpj@).len() == 14,
        r matches Ok(q) ==> q@ == lookup_sql_spec(cnpj_spec(cnpj@).unwrap()),
        r matches Ok(q) ==> q@ == "SELECT * FROM companies WHERE cnpj = '"@ + only_digits(cnpj@)
            + "'"@,
        r matches Err(e) ==> (e matches Error::InvalidCnpj(t) && t@ == cnpj@),
{
    proof {
        if only_digits(cnpj@).len() == 14 {
            law_lookup_names_the_digits(cnpj@);
        }
    }
    let normalized = normalize_cnpj(cnpj)?;
    let mut q = String::new();
    q.append("SELECT * FROM companies WHERE cnpj = '");
    let esc = sanitize(normalized.as_str());
    q.append(esc.as_str());
    q.append("'");
    Ok(q)
}

/// A condition `<prefix><value><suffix>` when the filter is set.
pub open spec fn clause_if(v: Option<String>, prefix: Seq<char>, body: spec_fn(Seq<char>) -> Seq<char>, suffix: Seq<char>) -> Seq<Seq<char>> {
    match v {
        Some(s) => seq![prefix + body(s@) + suffix],
        None => Seq::empty(),
    }
}

/// The conditions of a search, in the order uf, cnae, bairro, municipio,
/// natureza, situacao. Values are quoted with their single quotes doubled;
/// the CNAE keeps only its digits; the bairro matches case-insensitively.
pub open spec fn search_clauses(p: SearchParams) -> Seq<Seq<char>> {
    clause_if(p.uf, "uf = '"@, |s: Seq<char>| escape_quotes(s), "'"@)
        + clause_if(p.cnae, "cnae_fiscal.codigo = '"@, |s: Seq<char>| only_digits(s), "'"@)
        + clause_if(p.bairro, "upper(endereco.bairro) = upper('"@, |s: Seq<char>| escape_quotes(s), "')"@)
        + clause_if(p.municipio, "municipio.codigo = '"@, |s: Seq<char>| escape_quotes(s), "'"@)
        + clause_if(p.natureza, "natureza_juridica.codigo = '"@, |s: Seq<char>| escape_quotes(s), "'"@)
        + clause_if(p.situacao, "situacao_cadastral = '"@, |s: Seq<char>| escape_quotes(s), "'"@)
}

/// `parts` joined by `sep`.
pub open spec fn join(parts: Seq<Seq<char>>, sep: Seq<char>) -> Seq<char>
    decreases parts.len(),
{
    if parts.len() == 0 {
        Seq::empty()
    } else if parts.len() == 1 {
        parts[0]
    } else {
        join(parts.drop_last(), sep) + sep + parts.last()
    }
}

/// The page size: the requested limit brought into 1..=100.
pub open spec fn page_size(limit: usize) -> nat {
    if limit < 1 {
        1
    } else if limit > 100 {
        100
    } else {
        limit as nat
    }
}

/// The rows skipped before the page: the page size times the pages before
/// it (page 0 counts as page 1), saturated at `usize::MAX`.
pub open spec fn page_offset(limit: usize, page: usize) -> nat {
    let before: nat = if page <= 1 { 0 } else { (page - 1) as nat };
    let n: nat = page_size(limit) * before;
    if n > usize::MAX {
        usize::MAX as nat
    } else {
        n
    }
}

/// The query of a search up to its page window: the table and, when a
/// filter is set, the conditions joined by `AND`.
pub open spec fn search_head(p: SearchParams) -> Seq<char> {
    let cs = search_clauses(p);
    let where_sql = if cs.len() == 0 {
        Seq::empty()
    } else {
        " WHERE "@ + join(cs, " AND "@)
    };
    "SELECT * FROM companies"@ + where_sql
}

/// The query of a search.
pub open spec fn search_sql_spec(p: SearchParams) -> Seq<char> {
    search_head(p) + " LIMIT "@ + decimal(page_size(p.limit)) + " OFFSET "@ + decimal(
        page_offset(p.limit, p.page),
    )
}

/// Joins `parts` with `sep`.
fn join_strings(parts: &Vec<String>, sep: &str) -> (r: String)
    ensures
        r@ == join(crate::xml::views(parts@), sep@),
{
    let mut r = String::new();
    let mut i: usize = 0;
    while i < parts.len()
        invariant
            i <= parts@.len(),
            r@ == join(crate::xml::views(parts@.take(i as int)), sep@),
        decreases parts.len() - i,
    {
        let ghost pre = crate::xml::views(parts@.take(i as int));
        let ghost next = crate::xml::views(parts@.take(i + 1));
        assert(next.drop_last() == pre);
        assert(next.last() == parts@[i as int]@);
        if i > 0 {
            r.append(sep);
        } else {
            assert(pre.len() == 0);
        }
        r.append(parts[i].as_str());
        i = i + 1;
    }
    assert(parts@.take(parts@.len() as int) == parts@);
    r
}

/// Adds `<prefix><escaped value><suffix>` to `out` when the filter is set.
fn push_quoted_clause(out: &mut Vec<String>, v: &Option<String>, prefix: &str, suffix: &str)
    ensures
        crate::xml::views(final(out)@) == crate::xml::views(old(out)@) + clause_if(
            *v,
            prefix@,
            |s: Seq<char>| escape_quotes(s),
            suffix@,
        ),
{
    match v {
        Some(s) => {
            let mut c = String::from_str(prefix);
            let e = sanitize(s.as_str());
            c.append(e.as_str());
            c.append(suffix);
            let ghost before = out@;
            out.push(c);
            assert(crate::xml::views(out@) == crate::xml::views(before).push(c@));
        },
        None => {
            assert(crate::xml::views(old(out)@) + Seq::<Seq<char>>::empty() == crate::xml::views(old(out)@));
        },
    }
}

/// Builds the `SELECT ... WHERE ... LIMIT ... OFFSET ...` of a search.
pub fn build_search_sql(p: &SearchParams) -> (r: String)
    ensures
        r@ == search_sql_spec(*p),
        1 <= p.limit <= 100 && p.page >= 1 && p.limit * (p.page - 1) <= usize::MAX ==> r@
            == search_head(*p) + " LIMIT "@ + decimal(p.limit as nat) + " OFFSET "@ + decimal(
            (p.limit * (p.page - 1)) as nat,
        ),
{
    proof {
        law_page_window(p.limit, p.page);
    }
    let mut clauses: Vec<String> = Vec::new();
    push_quoted_clause(&mut clauses, &p.uf, "uf = '", "'");
    match &p.cnae {
        Some(v) => {
            let mut c = String::from_str("cnae_fiscal.codigo = '");
            let d = normalize_cnae(v.as_str());
            c.append(d.as_str());
            c.append("'");
            let ghost before = clauses@;
            clauses.push(c);
            assert(crate::xml::views(clauses@) == crate::xml::views(before).push(c@));
        },
        None => {},
    }
    push_quoted_clause(&mut clauses, &p.bairro, "upper(endereco.bairro) = upper('", "')");
    push_quoted_clause(&mut clauses, &p.municipio, "municipio.codigo = '", "'");
    push_quoted_clause(&mut clauses, &p.natureza, "natureza_juridica.codigo = '", "'");
    push_quoted_clause(&mut clauses, &p.situacao, "situacao_cadastral = '", "'");
    assert(crate::xml::views(clauses@) =~= search_clauses(*p));
    let mut q = String::from_str("SELECT * FROM companies");
    if clauses.len() > 0 {
        q.append(" WHERE ");
        let j = join_strings(&clauses, " AND ");
        q.append(j.as_str());
    }
    let limit: usize = if p.limit < 1 {
        1
    } else if p.limit > 100 {
        100
    } else {
        p.limit
    };
    let before: usize = if p.page <= 1 { 0 } else { p.page - 1 };
    let offset: usize = match limit.checked_mul(before) {
        Some(n) => n,
        None => usize::MAX,
    };
    q.append(" LIMIT ");
    push_decimal(&mut q, limit as u64);
    q.append(" OFFSET ");
    push_decimal(&mut q, offset as u64);
    q
}

/// A normalized CNPJ normalizes to itself.
pub proof fn law_normalized_cnpj_is_stable(s: Seq<char>)
    requires
        cnpj_spec(s) is Some,
    ensures
        cnpj_spec(cnpj_spec(s).unwrap()) == cnpj_spec(s),
{
    crate::text::lemma_only_digits_idempotent(s);
}

/// A text names a CNPJ exactly when it holds 14 ASCII digits, whatever else
/// it holds and whatever the digits are: the order number of a branch
/// (`0002`, ...) is accepted as that of a head office (`0001`). The CNPJ is
/// then those digits, in order.
pub proof fn law_cnpj_is_fourteen_digits(s: Seq<char>)
    ensures
        cnpj_spec(s) is Some <==> s.filter(|c: char| crate::text::is_digit(c)).len() == 14,
        cnpj_spec(s) is Some ==> cnpj_spec(s).unwrap() == s.filter(
            |c: char| crate::text::is_digit(c),
        ),
        cnpj_spec(s) is Some ==> cnpj_spec(s).unwrap().len() == 14 && crate::text::all_digits(
            cnpj_spec(s).unwrap(),
        ),
        crate::text::all_digits(s) && s.len() == 14 ==> cnpj_spec(s) == Some(s),
{
    crate::text::law_only_digits_filters_digits(s);
}

/// Quoting leaves a text of digits unchanged.
proof fn lemma_escape_digits(s: Seq<char>)
    ensures
        escape_quotes(only_digits(s)) == only_digits(s),
    decreases s.len(),
{
    if s.len() > 0 {
        lemma_escape_digits(s.drop_last());
        let r = only_digits(s.drop_last());
        if crate::text::is_digit(s.last()) {
            assert(r.push(s.last()).drop_last() == r);
        }
    }
}

/// The lookup query of a valid CNPJ compares `cnpj` with exactly its 14
/// digits, as they are, between quotes.
pub proof fn law_lookup_names_the_digits(s: Seq<char>)
    requires
        cnpj_spec(s) is Some,
    ensures
        lookup_sql_spec(cnpj_spec(s).unwrap()) == "SELECT * FROM companies WHERE cnpj = '"@
            + only_digits(s) + "'"@,
        only_digits(s).len() == 14,
{
    lemma_escape_digits(s);
}

/// A page holds as many rows as the limit asks for when that is between 1
/// and 100, one row for a limit of 0 and 100 rows for a larger limit; it
/// skips exactly the rows of the pages before it whenever that count fits
/// in a `usize`.
pub proof fn law_page_window(limit: usize, page: usize)
    ensures
        1 <= limit <= 100 ==> page_size(limit) == limit,
        limit < 1 ==> page_size(limit) == 1,
        limit > 100 ==> page_size(limit) == 100,
        1 <= limit <= 100 && page >= 1 && limit * (page - 1) <= usize::MAX ==> page_offset(
            limit,
            page,
        ) == limit * (page - 1),
        1 <= page_size(limit) <= 100,
        page >= 1 && page_size(limit) * (page - 1) <= usize::MAX ==> page_offset(limit, page)
            == page_size(limit) * (page - 1),
        page <= 1 ==> page_offset(limit, page) == 0,
{
}

} // verus!
