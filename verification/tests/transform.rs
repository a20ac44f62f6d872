use minha_receita_rs::schema::DataKind;
use minha_receita_rs::transform::{
    classify, classify_stem, entry_content, ibge_fields, ibge_raw_fields, raw_fields, is_zip_archive_name, is_directory_entry, partition_dir_name, partition_query,
    raw_schema, registered_sources, staging_target, EntryContent, CONSOLIDATION_SQL,
};

#[test]
fn classifies_real_receita_names() {
    assert_eq!(classify("K3241.K03200Y0.D10110.EMPRECSV"), Some("empresas"));
    assert_eq!(
        classify("K3241.K03200Y0.D10110.ESTABELE"),
        Some("estabelecimentos")
    );
    assert_eq!(classify("K3241.K03200Y0.D10110.SOCIOCSV"), Some("socios"));
    assert_eq!(classify("F.K03200$Z.D10110.CNAECSV"), Some("cnaes"));
    assert_eq!(classify("F.K03200$Z.D10110.MUNICCSV"), Some("municipios"));
    assert_eq!(classify("F.K03200$Z.D10110.NATJUCSV"), Some("naturezas"));
    assert_eq!(classify("F.K03200$Z.D10110.PAISCSV"), Some("paises"));
    assert_eq!(classify("F.K03200$Z.D10110.MOTICSV"), Some("motivos"));
    assert_eq!(
        classify("F.K03200$Z.D10110.QUALSCSV"),
        Some("qualificacoes")
    );
    assert_eq!(classify("D10110.SIMPLES.CSV.D10110"), Some("simples"));
    assert_eq!(classify("ignore.txt"), None);
}

#[test]
fn classifies_test_friendly_names() {
    assert_eq!(classify("Empresas0"), Some("empresas"));
    assert_eq!(classify("Estabelecimentos0"), Some("estabelecimentos"));
    assert_eq!(classify("Socios0"), Some("socios"));
    assert_eq!(classify("Cnaes"), Some("cnaes"));
    assert_eq!(classify("Municipios"), Some("municipios"));
    assert_eq!(classify("Naturezas"), Some("naturezas"));
    assert_eq!(classify("Paises"), Some("paises"));
    assert_eq!(classify("Motivos"), Some("motivos"));
    assert_eq!(classify("Qualificacoes"), Some("qualificacoes"));
    assert_eq!(classify("Simples"), Some("simples"));
}

#[test]
fn classify_looks_at_the_last_path_component() {
    assert_eq!(classify("empresas/Cnaes"), Some("cnaes"));
    assert_eq!(classify("dir/"), None);
}

#[test]
fn raw_schemas_have_expected_columns() {
    let names = raw_schema("empresas").unwrap();
    assert_eq!(names[0], "cnpj_basico");
    assert_eq!(names[1], "razao_social");

    let names = raw_schema("estabelecimentos").unwrap();
    assert_eq!(names[0], "cnpj_basico");
    assert!(names.iter().any(|n| n == "uf"));
}

#[test]
fn every_registered_source_has_a_schema() {
    let kinds = registered_sources();
    assert_eq!(kinds.len(), 10);
    for k in kinds {
        assert!(raw_schema(k).is_some(), "{k}");
    }
    assert_eq!(raw_schema("municipios").unwrap(), vec!["codigo", "descricao"]);
    assert_eq!(raw_schema("socios").unwrap().len(), 11);
    assert_eq!(raw_schema("simples").unwrap().len(), 7);
    assert_eq!(raw_schema("estabelecimentos").unwrap().len(), 30);
    assert!(raw_schema("ibge").is_none());
}

#[test]
fn text_entries_are_decoded_from_cp1252() {
    match entry_content("Empresas0", vec![b'a', 0xE7, b'o']) {
        EntryContent::Text(t) => assert_eq!(t, "aço"),
        other => panic!("unexpected {other:?}"),
    }
}

#[test]
fn zip_entries_stay_binary_and_directories_are_skipped() {
    assert_eq!(
        entry_content("inner/Empresas0.ZIP", vec![0xE7, 0x00]),
        EntryContent::Binary(vec![0xE7, 0x00])
    );
    assert_eq!(entry_content("2026-01/", vec![]), EntryContent::Directory);
    assert!(is_directory_entry("a/b/"));
    assert!(!is_directory_entry("a/b"));
}

#[test]
fn staging_targets_follow_the_source() {
    assert_eq!(
        staging_target("Empresas0"),
        Some(("empresas", "Empresas0.csv".to_string()))
    );
    assert_eq!(staging_target("Cnaes"), Some(("cnaes", "Cnaes.csv".to_string())));
    assert_eq!(staging_target("ignore.txt"), None);
}

#[test]
fn partition_texts() {
    assert_eq!(
        partition_query("SP"),
        "SELECT * EXCEPT(uf) FROM staging WHERE uf = 'SP'"
    );
    assert_eq!(
        partition_query("X'Y"),
        "SELECT * EXCEPT(uf) FROM staging WHERE uf = 'X''Y'"
    );
    assert_eq!(partition_dir_name("RJ"), "uf=RJ");
    assert!(CONSOLIDATION_SQL.contains("LEFT JOIN simples sim"));
}

#[test]
fn classified_files_go_to_registered_tables() {
    let kinds = registered_sources();
    for name in ["Empresas0", "F.K03200$Z.D10110.MUNICCSV", "Qualificacoes", "x/PAISES"] {
        let k = classify(name).unwrap();
        assert!(kinds.contains(&k), "{name}");
    }
}

#[test]
fn classify_ignores_ascii_case() {
    for name in ["Empresas0", "K3241.K03200Y0.D10110.ESTABELE", "f.k03200$z.d10110.cnaecsv", "ignore.txt"] {
        let k = classify(name);
        assert_eq!(classify(&name.to_ascii_lowercase()), k, "{name}");
        assert_eq!(classify(&name.to_ascii_uppercase()), k, "{name}");
    }
}

#[test]
fn zip_extension_follows_path_rules() {
    assert!(is_zip_archive_name("a.zip"));
    assert!(is_zip_archive_name("..zip"));
    assert!(!is_zip_archive_name(".zip"));
    assert!(!is_zip_archive_name("a.ZIP"));
    assert!(!is_zip_archive_name("a.zipx"));
    assert!(!is_zip_archive_name("tabmun.csv"));
}

#[test]
fn ibge_columns_are_projected() {
    let raw: Vec<&str> = ibge_raw_fields().iter().map(|f| f.name).collect();
    assert_eq!(raw, vec!["codigo_tom", "cnpj", "nome", "uf", "codigo_ibge"]);
    let kept: Vec<&str> = ibge_fields().iter().map(|f| f.name).collect();
    assert_eq!(kept, vec!["codigo_tom", "nome", "uf", "codigo_ibge"]);
    assert!(ibge_fields().iter().all(|f| f.kind == DataKind::Utf8 && f.nullable));
}

#[test]
fn raw_fields_are_nullable_text() {
    let fs = raw_fields("socios").unwrap();
    assert_eq!(fs.len(), 11);
    assert_eq!(fs[1].name, "identificador_de_socio");
    assert!(fs.iter().all(|f| f.kind == DataKind::Utf8 && f.nullable));
    assert!(raw_fields("ibge").is_none());
}

#[test]
fn classify_stem_reads_upper_case_stems() {
    assert_eq!(classify_stem("K3241.K03200Y0.D10110.EMPRECSV"), Some("empresas"));
    assert_eq!(classify_stem("D10110.SIMPLES.CSV.D10110"), Some("simples"));
    assert_eq!(classify_stem("MUNICIPIOS"), Some("municipios"));
    assert_eq!(classify_stem("empresas0"), None);
    assert_eq!(classify_stem("IGNORE.TXT"), None);
}
