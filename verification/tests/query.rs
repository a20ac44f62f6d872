use minha_receita_rs::query::{build_search_sql, lookup_sql, normalize_cnae, normalize_cnpj, SearchParams};
use minha_receita_rs::Error;

#[test]
fn cnae_accepts_punctuated_form() {
    let p = SearchParams {
        cnae: Some("4711-3/01".into()),
        limit: 10,
        page: 1,
        ..Default::default()
    };
    assert!(build_search_sql(&p).contains("cnae_fiscal.codigo = '4711301'"));
}

#[test]
fn bairro_matches_case_insensitively() {
    let p = SearchParams {
        bairro: Some("Centro".into()),
        limit: 10,
        page: 1,
        ..Default::default()
    };
    assert!(build_search_sql(&p).contains("upper(endereco.bairro) = upper('Centro')"));
}

#[test]
fn pagination_translates_to_offset() {
    let p = SearchParams {
        limit: 25,
        page: 3,
        ..Default::default()
    };
    assert!(build_search_sql(&p).contains("LIMIT 25 OFFSET 50"));
}

#[test]
fn single_quotes_are_escaped() {
    let p = SearchParams {
        bairro: Some("D'OESTE".into()),
        limit: 10,
        page: 1,
        ..Default::default()
    };
    assert!(build_search_sql(&p).contains("upper('D''OESTE')"));
}

#[test]
fn search_without_filters_has_no_where() {
    let p = SearchParams { limit: 10, page: 1, ..Default::default() };
    assert_eq!(build_search_sql(&p), "SELECT * FROM companies LIMIT 10 OFFSET 0");
}

#[test]
fn all_filters_are_joined_in_order() {
    let p = SearchParams {
        uf: Some("SP".into()),
        cnae: Some("4711-3/01".into()),
        bairro: Some("Centro".into()),
        municipio: Some("7107".into()),
        natureza: Some("2046".into()),
        situacao: Some("ATIVA".into()),
        limit: 5,
        page: 2,
    };
    assert_eq!(
        build_search_sql(&p),
        "SELECT * FROM companies WHERE uf = 'SP' AND cnae_fiscal.codigo = '4711301' \
         AND upper(endereco.bairro) = upper('Centro') AND municipio.codigo = '7107' \
         AND natureza_juridica.codigo = '2046' AND situacao_cadastral = 'ATIVA' LIMIT 5 OFFSET 5"
    );
}

#[test]
fn limit_is_clamped_and_page_zero_is_first() {
    let p = SearchParams { limit: 0, page: 0, ..Default::default() };
    assert!(build_search_sql(&p).ends_with("LIMIT 1 OFFSET 0"));
    let p = SearchParams { limit: 1000, page: 2, ..Default::default() };
    assert!(build_search_sql(&p).ends_with("LIMIT 100 OFFSET 100"));
    let p = SearchParams { limit: 100, page: usize::MAX, ..Default::default() };
    assert!(build_search_sql(&p).ends_with(&format!("LIMIT 100 OFFSET {}", usize::MAX)));
}

#[test]
fn cnpj_keeps_digits_and_needs_fourteen() {
    assert_eq!(normalize_cnpj("12.345.678/0001-90").unwrap(), "12345678000190");
    assert_eq!(normalize_cnpj("12345678000190").unwrap(), "12345678000190");
    assert_eq!(normalize_cnpj("123"), Err(Error::InvalidCnpj("123".to_string())));
    assert!(normalize_cnpj("123456780001901").is_err());
    assert_eq!(normalize_cnae("4711-3/01"), "4711301");
}

#[test]
fn lookup_query_names_the_cnpj() {
    assert_eq!(
        lookup_sql("12.345.678/0001-90").unwrap(),
        "SELECT * FROM companies WHERE cnpj = '12345678000190'"
    );
    assert!(lookup_sql("x").is_err());
}

#[test]
fn normalized_cnpj_normalizes_to_itself() {
    let once = normalize_cnpj("00.000.000/0001-91").unwrap();
    assert_eq!(normalize_cnpj(&once).unwrap(), once);
}
