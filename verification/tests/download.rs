use minha_receita_rs::download::{
    check_http_status, download_file_name, effective_concurrency, file_urls,
    latest_period_from_hrefs, latest_propfind_period, parse_propfind_files,
    parse_propfind_periods, period_directory_url, periods_from_hrefs, remote_length,
    select_csv_resource, should_skip_download, zip_names_from_hrefs,
};
use minha_receita_rs::xml::{extract_hrefs, hrefs_of_events, XmlEvent};
use minha_receita_rs::{Error, Period};

const PROPFIND_PERIODS: &str = r#"<?xml version="1.0"?>
<d:multistatus xmlns:d="DAV:">
  <d:response><d:href>/public.php/webdav/</d:href></d:response>
  <d:response><d:href>/public.php/webdav/2024-12/</d:href></d:response>
  <d:response><d:href>/public.php/webdav/2025-01/</d:href></d:response>
  <d:response><d:href>/public.php/webdav/2026-04/</d:href></d:response>
  <d:response><d:href>/public.php/webdav/cnpj.tar.gz</d:href></d:response>
</d:multistatus>"#;

const PROPFIND_FILES: &str = r#"<?xml version="1.0"?>
<d:multistatus xmlns:d="DAV:">
  <d:response><d:href>/public.php/webdav/2026-04/</d:href></d:response>
  <d:response><d:href>/public.php/webdav/2026-04/Empresas0.zip</d:href></d:response>
  <d:response><d:href>/public.php/webdav/2026-04/Estabelecimentos0.zip</d:href></d:response>
  <d:response><d:href>/public.php/webdav/2026-04/Cnaes.zip</d:href></d:response>
  <d:response><d:href>/public.php/webdav/2026-04/README.txt</d:href></d:response>
</d:multistatus>"#;

#[test]
fn parses_period_directories_from_propfind() {
    let mut periods = parse_propfind_periods(PROPFIND_PERIODS);
    periods.sort();
    let strs: Vec<String> = periods.iter().map(|p| p.to_string()).collect();
    assert_eq!(strs, vec!["2024-12", "2025-01", "2026-04"]);
}

#[test]
fn latest_period_picks_max() {
    let p = latest_propfind_period(PROPFIND_PERIODS).unwrap();
    assert_eq!(p.to_string(), "2026-04");
}

#[test]
fn parses_zip_files_from_propfind() {
    let names = parse_propfind_files(PROPFIND_FILES);
    assert!(names.iter().any(|n| n == "Empresas0.zip"));
    assert!(names.iter().any(|n| n == "Cnaes.zip"));
    assert!(!names.iter().any(|n| n == "README.txt"));
}

#[test]
fn extracts_every_href_in_order() {
    let hrefs = extract_hrefs(PROPFIND_PERIODS);
    assert_eq!(
        hrefs,
        vec![
            "/public.php/webdav/",
            "/public.php/webdav/2024-12/",
            "/public.php/webdav/2025-01/",
            "/public.php/webdav/2026-04/",
            "/public.php/webdav/cnpj.tar.gz",
        ]
    );
}

#[test]
fn hrefs_accept_any_prefix_and_unescape_entities() {
    let xml = "<r><href>/a/2020-01</href><x:href>/b&amp;c.ZIP</x:href><hrefs>no</hrefs></r>";
    assert_eq!(extract_hrefs(xml), vec!["/a/2020-01", "/b&c.ZIP"]);
}

#[test]
fn hrefs_stop_at_malformed_xml() {
    let xml = "<r><href>/a</href><href>/b</wrong><href>/c</href></r>";
    assert_eq!(extract_hrefs(xml), vec!["/a", "/b"]);
}

#[test]
fn empty_listing_has_no_latest_period() {
    let err = latest_propfind_period("<d:multistatus/>").unwrap_err();
    assert_eq!(err, Error::MissingData("no period in PROPFIND response".to_string()));
}

#[test]
fn periods_from_hrefs_keeps_order_and_skips_others() {
    let hrefs = vec![
        "/x/2026-04/".to_string(),
        "/x/readme".to_string(),
        "2024-12".to_string(),
        "/x/2024-13/".to_string(),
    ];
    let ps = periods_from_hrefs(&hrefs);
    let strs: Vec<String> = ps.iter().map(|p| p.to_string()).collect();
    assert_eq!(strs, vec!["2026-04", "2024-12"]);
    assert_eq!(latest_period_from_hrefs(&hrefs).unwrap().to_string(), "2026-04");
}

#[test]
fn zip_names_ignore_case_of_extension() {
    let hrefs = vec![
        "/p/A.ZIP".to_string(),
        "/p/b.zip/".to_string(),
        "/p/c.zipx".to_string(),
        "d.Zip".to_string(),
    ];
    assert_eq!(zip_names_from_hrefs(&hrefs), vec!["A.ZIP", "b.zip", "d.Zip"]);
}

#[test]
fn file_name_is_the_last_url_segment() {
    assert_eq!(download_file_name("https://h/x/Empresas0.zip"), "Empresas0.zip");
    assert_eq!(download_file_name("noslash"), "noslash");
    assert_eq!(download_file_name("https://h/x/"), "");
}

#[test]
fn http_status_outside_2xx_is_an_error() {
    assert!(check_http_status("u", 200).is_ok());
    assert!(check_http_status("u", 207).is_ok());
    assert_eq!(
        check_http_status("https://h/f", 404),
        Err(Error::Http { url: "https://h/f".to_string(), status: 404 })
    );
    assert!(check_http_status("u", 199).is_err());
    assert!(check_http_status("u", 300).is_err());
}

#[test]
fn content_length_parses_like_u64() {
    assert_eq!(remote_length(Some("11")), Some(11));
    assert_eq!(remote_length(Some("+7")), Some(7));
    assert_eq!(remote_length(Some("007")), Some(7));
    assert_eq!(remote_length(Some("18446744073709551615")), Some(u64::MAX));
    assert_eq!(remote_length(Some("18446744073709551616")), None);
    assert_eq!(remote_length(Some("")), None);
    assert_eq!(remote_length(Some("+")), None);
    assert_eq!(remote_length(Some("-1")), None);
    assert_eq!(remote_length(Some(" 1")), None);
    assert_eq!(remote_length(None), None);
}

#[test]
fn skip_only_when_sizes_match() {
    assert!(should_skip_download(Some(11), Some(11)));
    assert!(!should_skip_download(Some(10), Some(11)));
    assert!(!should_skip_download(None, Some(11)));
    assert!(!should_skip_download(Some(11), None));
}

#[test]
fn concurrency_is_at_least_one() {
    assert_eq!(effective_concurrency(0), 1);
    assert_eq!(effective_concurrency(4), 4);
}

#[test]
fn period_and_file_urls() {
    let p: Period = "2026-04".parse().unwrap();
    let dir = period_directory_url("https://h/webdav///", &p);
    assert_eq!(dir, "https://h/webdav/2026-04/");
    let urls = file_urls(&dir, &vec!["A.zip".to_string(), "B.zip".to_string()]);
    assert_eq!(urls, vec!["https://h/webdav/2026-04/A.zip", "https://h/webdav/2026-04/B.zip"]);
}

#[test]
fn selects_first_csv_resource() {
    let urls = vec![
        "https://example.com/other.pdf".to_string(),
        "https://example.com/tabmun.csv".to_string(),
        "https://example.com/second.CSV".to_string(),
    ];
    assert_eq!(select_csv_resource(&urls).unwrap(), "https://example.com/tabmun.csv");
    assert_eq!(
        select_csv_resource(&vec!["a.pdf".to_string()]),
        Err(Error::MissingData("no CSV resource in CKAN response".to_string()))
    );
}

#[test]
fn hrefs_of_events_scans_the_stream() {
    let evs = vec![
        XmlEvent::Start(b"d:href".to_vec()),
        XmlEvent::Text(Some("/a/".to_string())),
        XmlEvent::Other,
        XmlEvent::Text(Some("/b".to_string())),
        XmlEvent::End,
        XmlEvent::Text(Some("outside".to_string())),
        XmlEvent::Start(b"href".to_vec()),
        XmlEvent::Text(None),
        XmlEvent::Text(Some("/c".to_string())),
        XmlEvent::Error,
        XmlEvent::Text(Some("/after".to_string())),
    ];
    assert_eq!(hrefs_of_events(&evs), vec!["/a/", "/b", "/c"]);
    assert_eq!(hrefs_of_events(&vec![XmlEvent::Start(b"hrefx".to_vec()), XmlEvent::Text(Some("x".into()))]), Vec::<String>::new());
}
