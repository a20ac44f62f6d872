use minha_receita_rs::schema::{companies_schema, DataKind, Field};

fn field<'a>(s: &'a [Field], name: &str) -> &'a Field {
    s.iter().find(|f| f.name == name).unwrap()
}

#[test]
fn companies_schema_has_expected_top_level_fields() {
    let s = companies_schema();
    let names: Vec<&str> = s.iter().map(|f| f.name).collect();
    for expected in [
        "cnpj", "cnpj_raiz", "razao_social", "nome_fantasia",
        "situacao_cadastral", "data_situacao_cadastral",
        "motivo_situacao_cadastral", "data_inicio_atividade",
        "cnae_fiscal", "cnaes_secundarios", "natureza_juridica",
        "qualificacao_responsavel", "capital_social", "porte",
        "ente_federativo_responsavel", "uf", "municipio", "pais",
        "endereco", "email", "telefones", "qsa",
        "opcao_pelo_simples", "data_opcao_pelo_simples",
        "data_exclusao_do_simples", "opcao_pelo_mei",
        "data_opcao_pelo_mei", "data_exclusao_do_mei",
    ] {
        assert!(names.contains(&expected), "missing field: {expected}");
    }
}

#[test]
fn cnae_fiscal_is_struct_with_codigo_descricao() {
    let s = companies_schema();
    let f = field(&s, "cnae_fiscal");
    match &f.kind {
        DataKind::Struct(children) => {
            let names: Vec<&str> = children.iter().map(|f| f.name).collect();
            assert_eq!(names, vec!["codigo", "descricao"]);
        }
        other => panic!("expected struct, got {other:?}"),
    }
}

#[test]
fn qsa_is_list_of_struct() {
    let s = companies_schema();
    let f = field(&s, "qsa");
    match &f.kind {
        DataKind::List(inner) => match &inner.kind {
            DataKind::Struct(_) => {}
            other => panic!("expected list of struct, got list of {other:?}"),
        },
        other => panic!("expected list, got {other:?}"),
    }
}

#[test]
fn keys_are_not_nullable() {
    let s = companies_schema();
    for name in ["cnpj", "cnpj_raiz", "uf"] {
        assert!(!field(&s, name).nullable, "{name}");
    }
    assert!(field(&s, "email").nullable);
    assert_eq!(field(&s, "capital_social").kind, DataKind::Float64);
    assert_eq!(s.len(), 28);
}
