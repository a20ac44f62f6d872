//! The decisions and texts of the download step: reading the WebDAV listing
//! of the Receita share, naming files, checking HTTP answers.

use vstd::prelude::*;
use crate::error::Error;
use crate::period::{parse_period_spec, Period};
use crate::text::{
    all_ascii, ascii_lower, is_ascii_char,
    after_last_slash, after_last_slash_of, chars_end_with, chars_of, ends_with, last_segment,
    parse_u64, parse_u64_spec, spec_to_lowercase, to_lowercase, trim_end_slashes,
    trim_trailing_slashes,
};
use crate::xml::{extract_hrefs, hrefs_from, spec_xml_events, views};

verus! {

/// The public WebDAV share of the Receita Federal (a read-only Nextcloud
/// share; the share token is the user name and the password is empty).
pub const RECEITA_WEBDAV_URL: &'static str = "https://arquivos.receitafederal.gov.br/public.php/webdav/";

/// The token of the public share.
pub const RECEITA_SHARE_TOKEN: &'static str = "YggdBLfdninEJX9";

/// The base URL that downloads start from.
pub const RECEITA_BASE_URL: &'static str = "https://arquivos.receitafederal.gov.br/public.php/webdav/";

/// The CKAN package that lists the IBGE municipality table.
pub const IBGE_CKAN_URL: &'static str = "https://www.tesourotransparente.gov.br/ckan/api/3/action/package_show?id=abb968cb-3710-4f85-89cf-875c91b9c7f6";

/// The last segment of a listing entry once trailing slashes are removed.
pub open spec fn href_segment(h: Seq<char>) -> Seq<char> {
    after_last_slash(trim_end_slashes(h))
}

/// The period that a listing entry names, if its last segment is one.
pub open spec fn period_of_href(h: Seq<char>) -> Option<Period> {
    parse_period_spec(href_segment(h))
}

/// The periods named by the entries `hs`, in order, skipping the others.
pub open spec fn periods_of_hrefs(hs: Seq<Seq<char>>) -> Seq<Period>
    decreases hs.len(),
{
    if hs.len() == 0 {
        Seq::empty()
    } else {
        let r = periods_of_hrefs(hs.drop_last());
        match period_of_href(hs.last()) {
            Some(p) => r.push(p),
            None => r,
        }
    }
}

/// The file name of a listing entry, if it names a `.zip` file (in any case).
pub open spec fn zip_of_href(h: Seq<char>) -> Option<Seq<char>> {
    if ends_with(spec_to_lowercase(href_segment(h)), ".zip"@) {
        Some(href_segment(h))
    } else {
        None
    }
}

/// The `.zip` file names of the entries `hs`, in order.
pub open spec fn zips_of_hrefs(hs: Seq<Seq<char>>) -> Seq<Seq<char>>
    decreases hs.len(),
{
    if hs.len() == 0 {
        Seq::empty()
    } else {
        let r = zips_of_hrefs(hs.drop_last());
        match zip_of_href(hs.last()) {
            Some(z) => r.push(z),
            None => r,
        }
    }
}

/// Whether every text of `hs` is ASCII.
pub open spec fn all_ascii_texts(hs: Seq<Seq<char>>) -> bool {
    forall|i: int| 0 <= i < hs.len() ==> all_ascii(#[trigger] hs[i])
}

/// For an ASCII entry, the `.zip` file name it names, with lower-casing
/// written out as the ASCII case map that `str::to_lowercase` applies to
/// ASCII text.
pub open spec fn zip_of_ascii_href(h: Seq<char>) -> Option<Seq<char>> {
    if ends_with(ascii_lower(href_segment(h)), ".zip"@) {
        Some(href_segment(h))
    } else {
        None
    }
}

/// The `.zip` file names of the ASCII entries `hs`, in order.
pub open spec fn zips_of_ascii_hrefs(hs: Seq<Seq<char>>) -> Seq<Seq<char>>
    decreases hs.len(),
{
    if hs.len() == 0 {
        Seq::empty()
    } else {
        let r = zips_of_ascii_hrefs(hs.drop_last());
        match zip_of_ascii_href(hs.last()) {
            Some(z) => r.push(z),
            None => r,
        }
    }
}

/// The last segment of an ASCII entry is ASCII.
proof fn lemma_segment_ascii(h: Seq<char>)
    requires
        all_ascii(h),
    ensures
        all_ascii(href_segment(h)),
{
    lemma_trim_end_slashes_ascii(h);
    lemma_after_last_slash_ascii(trim_end_slashes(h));
}

proof fn lemma_trim_end_slashes_ascii(s: Seq<char>)
    requires
        all_ascii(s),
    ensures
        all_ascii(trim_end_slashes(s)),
    decreases s.len(),
{
    if s.len() > 0 && s.last() == '/' {
        assert(all_ascii(s.drop_last())) by {
            assert forall|i: int| 0 <= i < s.drop_last().len() implies is_ascii_char(
                #[trigger] s.drop_last()[i],
            ) by {
                assert(s.drop_last()[i] == s[i]);
            }
        }
        lemma_trim_end_slashes_ascii(s.drop_last());
    }
}

proof fn lemma_after_last_slash_ascii(s: Seq<char>)
    requires
        all_ascii(s),
    ensures
        all_ascii(after_last_slash(s)),
    decreases s.len(),
{
    if s.len() > 0 && s.last() != '/' {
        assert(all_ascii(s.drop_last())) by {
            assert forall|i: int| 0 <= i < s.drop_last().len() implies is_ascii_char(
                #[trigger] s.drop_last()[i],
            ) by {
                assert(s.drop_last()[i] == s[i]);
            }
        }
        lemma_after_last_slash_ascii(s.drop_last());
        let r = after_last_slash(s.drop_last());
        assert(is_ascii_char(s[s.len() - 1]));
        assert forall|i: int| 0 <= i < r.push(s.last()).len() implies is_ascii_char(
            #[trigger] r.push(s.last())[i],
        ) by {
            if i < r.len() {
                assert(r.push(s.last())[i] == r[i]);
            }
        }
    }
}

/// The periods named by listing entries, in order; entries whose last
/// segment is not a period are skipped.
pub fn periods_from_hrefs(hrefs: &Vec<String>) -> (r: Vec<Period>)
    ensures
        r@ == periods_of_hrefs(views(hrefs@)),
{
    let mut r: Vec<Period> = Vec::new();
    let mut i: usize = 0;
    while i < hrefs.len()
        invariant
            i <= hrefs@.len(),
            r@ == periods_of_hrefs(views(hrefs@.take(i as int))),
        decreases hrefs.len() - i,
    {
        assert(views(hrefs@.take(i + 1)).drop_last() == views(hrefs@.take(i as int)));
        assert(views(hrefs@.take(i + 1)).last() == hrefs@[i as int]@);
        let seg = last_segment(hrefs[i].as_str());
        match Period::parse(seg.as_str()) {
            Ok(p) => r.push(p),
            Err(_) => {},
        }
        i = i + 1;
    }
    assert(hrefs@.take(hrefs@.len() as int) == hrefs@);
    r
}

/// The `.zip` file names of listing entries, in order: the last segment of
/// each entry whose lower-cased form ends with `.zip`.
pub fn zip_names_from_hrefs(hrefs: &Vec<String>) -> (r: Vec<String>)
    ensures
        views(r@) == zips_of_hrefs(views(hrefs@)),
        all_ascii_texts(views(hrefs@)) ==> views(r@) == zips_of_ascii_hrefs(views(hrefs@)),
{
    let zip = chars_of(".zip");
    let mut r: Vec<String> = Vec::new();
    let mut i: usize = 0;
    while i < hrefs.len()
        invariant
            i <= hrefs@.len(),
            zip@ == ".zip"@,
            views(r@) == zips_of_hrefs(views(hrefs@.take(i as int))),
            all_ascii_texts(views(hrefs@)) ==> views(r@) == zips_of_ascii_hrefs(
                views(hrefs@.take(i as int)),
            ),
        decreases hrefs.len() - i,
    {
        assert(views(hrefs@.take(i + 1)).drop_last() == views(hrefs@.take(i as int)));
        assert(views(hrefs@.take(i + 1)).last() == hrefs@[i as int]@);
        proof {
            if all_ascii_texts(views(hrefs@)) {
                assert(views(hrefs@)[i as int] == hrefs@[i as int]@);
                lemma_segment_ascii(hrefs@[i as int]@);
            }
        }
        let seg = last_segment(hrefs[i].as_str());
        let lower = chars_of(to_lowercase(seg.as_str()).as_str());
        if chars_end_with(&lower, &zip) {
            let ghost before = r@;
            r.push(seg);
            assert(views(r@) == views(before).push(r@.last()@));
        }
        i = i + 1;
    }
    assert(hrefs@.take(hrefs@.len() as int) == hrefs@);
    r
}

/// Whether a period comes last among `ps`: it is one of them and none comes
/// after it.
pub open spec fn is_latest(p: Period, ps: Seq<Period>) -> bool {
    ps.contains(p) && forall|i: int| 0 <= i < ps.len() ==> !p.precedes(#[trigger] ps[i])
}

/// The latest period of a list is unique: two periods that are both latest
/// are the same period.
pub proof fn law_latest_is_unique(p: Period, q: Period, ps: Seq<Period>)
    requires
        is_latest(p, ps),
        is_latest(q, ps),
    ensures
        p == q,
{
    let i: int = choose|i: int| 0 <= i < ps.len() && ps[i] == q;
    let j: int = choose|j: int| 0 <= j < ps.len() && ps[j] == p;
    assert(!p.precedes(ps[i]));
    assert(!q.precedes(ps[j]));
}

/// Every name listed as a `.zip` file is a single path segment (it holds no
/// slash) whose lower-cased form ends with `.zip`.
pub proof fn law_listed_zips_are_file_names(hs: Seq<Seq<char>>)
    ensures
        forall|i: int| 0 <= i < zips_of_hrefs(hs).len() ==> !#[trigger] zips_of_hrefs(hs)[i].contains('/')
            && ends_with(spec_to_lowercase(zips_of_hrefs(hs)[i]), ".zip"@),
    decreases hs.len(),
{
    if hs.len() > 0 {
        law_listed_zips_are_file_names(hs.drop_last());
        lemma_after_last_slash_has_no_slash(trim_end_slashes(hs.last()));
        let r = zips_of_hrefs(hs.drop_last());
        let all = zips_of_hrefs(hs);
        assert forall|i: int| 0 <= i < all.len() implies !#[trigger] all[i].contains('/')
            && ends_with(spec_to_lowercase(all[i]), ".zip"@) by {
            if i < r.len() {
                assert(all[i] == r[i]);
            }
        }
    }
}

/// The name a download is saved under is a single path segment (it holds no
/// slash), so every file lands directly in the destination directory.
pub proof fn law_download_name_is_one_segment(url: Seq<char>)
    ensures
        !after_last_slash(url).contains('/'),
{
    lemma_after_last_slash_has_no_slash(url);
}

/// What follows the last slash holds no slash.
proof fn lemma_after_last_slash_has_no_slash(s: Seq<char>)
    ensures
        !after_last_slash(s).contains('/'),
    decreases s.len(),
{
    if s.len() > 0 && s.last() != '/' {
        lemma_after_last_slash_has_no_slash(s.drop_last());
        let r = after_last_slash(s.drop_last());
        assert forall|i: int| 0 <= i < r.push(s.last()).len() implies r.push(s.last())[i] != '/' by {
            if i < r.len() {
                assert(r.push(s.last())[i] == r[i]);
            }
        }
    }
}

/// Every period read from a listing is a valid period (a four-digit year and
/// a month from 1 to 12) whose text is the listing's own segment.
pub proof fn law_listed_periods_are_valid(hs: Seq<Seq<char>>)
    ensures
        forall|i: int| 0 <= i < periods_of_hrefs(hs).len() ==> (#[trigger] periods_of_hrefs(hs)[i]).is_valid(),
    decreases hs.len(),
{
    if hs.len() > 0 {
        law_listed_periods_are_valid(hs.drop_last());
        let h = href_segment(hs.last());
        if parse_period_spec(h) is Some {
            crate::period::law_parsed_period_is_canonical(h);
        }
        let r = periods_of_hrefs(hs.drop_last());
        let all = periods_of_hrefs(hs);
        assert forall|i: int| 0 <= i < all.len() implies (#[trigger] all[i]).is_valid() by {
            if i < r.len() {
                assert(all[i] == r[i]);
            }
        }
    }
}

/// A listing keeps every entry that names a period, and every `.zip` file,
/// in the order listed, dropping only the others (vstd's `filter_map`): no
/// entry is lost, so the latest period is taken over all of them.
pub proof fn law_listings_keep_every_entry(hs: Seq<Seq<char>>)
    ensures
        periods_of_hrefs(hs) == hs.filter_map(|h: Seq<char>| period_of_href(h)),
        zips_of_hrefs(hs) == hs.filter_map(|h: Seq<char>| zip_of_href(h)),
        forall|i: int| #![trigger hs[i]] 0 <= i < hs.len() && period_of_href(hs[i]) is Some
            ==> periods_of_hrefs(hs).contains(period_of_href(hs[i]).unwrap()),
        forall|i: int| #![trigger hs[i]] 0 <= i < hs.len() && zip_of_href(hs[i]) is Some
            ==> zips_of_hrefs(hs).contains(zip_of_href(hs[i]).unwrap()),
    decreases hs.len(),
{
    if hs.len() > 0 {
        let u = hs.drop_last();
        law_listings_keep_every_entry(u);
        let n = hs.len() - 1;
        let pu = periods_of_hrefs(u);
        let pv = periods_of_hrefs(hs);
        let zu = zips_of_hrefs(u);
        let zv = zips_of_hrefs(hs);
        match period_of_href(hs.last()) {
            Some(x) => {
                assert(pu.push(x) =~= pu + seq![x]);
                assert(pv[pv.len() - 1] == x);
            },
            None => {},
        }
        match zip_of_href(hs.last()) {
            Some(x) => {
                assert(zu.push(x) =~= zu + seq![x]);
                assert(zv[zv.len() - 1] == x);
            },
            None => {},
        }
        assert forall|i: int| #![trigger hs[i]] 0 <= i < hs.len() && period_of_href(hs[i]) is Some
            implies pv.contains(period_of_href(hs[i]).unwrap()) by {
            if i < n {
                assert(u[i] == hs[i]);
                let k = choose|k: int| 0 <= k < pu.len() && pu[k] == period_of_href(u[i]).unwrap();
                assert(pv[k] == pu[k]);
            }
        }
        assert forall|i: int| #![trigger hs[i]] 0 <= i < hs.len() && zip_of_href(hs[i]) is Some
            implies zv.contains(zip_of_href(hs[i]).unwrap()) by {
            if i < n {
                assert(u[i] == hs[i]);
                let k = choose|k: int| 0 <= k < zu.len() && zu[k] == zip_of_href(u[i]).unwrap();
                assert(zv[k] == zu[k]);
            }
        }
    }
}

/// The latest of `ps`, or `None` when there is none.
pub fn latest_period(ps: &Vec<Period>) -> (r: Option<Period>)
    ensures
        r is None <==> ps@.len() == 0,
        r matches Some(p) ==> is_latest(p, ps@),
{
    if ps.len() == 0 {
        return None;
    }
    let mut best = ps[0];
    let mut i: usize = 1;
    while i < ps.len()
        invariant
            1 <= i <= ps@.len(),
            ps@.contains(best),
            forall|j: int| 0 <= j < i ==> !best.precedes(#[trigger] ps@[j]),
        decreases ps.len() - i,
    {
        if best.is_before(&ps[i]) {
            best = ps[i];
        }
        i = i + 1;
    }
    Some(best)
}

/// The periods that a PROPFIND listing of the share root names.
pub fn parse_propfind_periods(xml: &str) -> (r: Vec<Period>)
    ensures
        r@ == periods_of_hrefs(hrefs_from(spec_xml_events(xml@), false)),
{
    periods_from_hrefs(&extract_hrefs(xml))
}

/// The `.zip` file names that a PROPFIND listing of a period directory names.
pub fn parse_propfind_files(xml: &str) -> (r: Vec<String>)
    ensures
        views(r@) == zips_of_hrefs(hrefs_from(spec_xml_events(xml@), false)),
{
    zip_names_from_hrefs(&extract_hrefs(xml))
}

/// The latest period of listing entries; `Error::MissingData` when they name
/// none.
pub fn latest_period_from_hrefs(hrefs: &Vec<String>) -> (r: Result<Period, Error>)
    ensures
        r is Err <==> periods_of_hrefs(views(hrefs@)).len() == 0,
        r matches Ok(p) ==> is_latest(p, periods_of_hrefs(views(hrefs@))),
        r matches Err(e) ==> (e matches Error::MissingData(m) && m@
            == "no period in PROPFIND response"@),
{
    let ps = periods_from_hrefs(hrefs);
    match latest_period(&ps) {
        Some(p) => Ok(p),
        None => Err(Error::MissingData(String::from_str("no period in PROPFIND response"))),
    }
}

/// The latest period that a PROPFIND listing of the share root names.
pub fn latest_propfind_period(xml: &str) -> (r: Result<Period, Error>)
    ensures
        ({
            let ps = periods_of_hrefs(hrefs_from(spec_xml_events(xml@), false));
            &&& r is Err <==> ps.len() == 0
            &&& r matches Ok(p) ==> is_latest(p, ps)
            &&& r matches Err(e) ==> (e matches Error::MissingData(m) && m@
                == "no period in PROPFIND response"@)
        }),
{
    latest_period_from_hrefs(&extract_hrefs(xml))
}

/// The file name under which a URL is saved: what follows its last slash
/// (`url.rsplit('/').next()`, which always yields a part).
pub fn download_file_name(url: &str) -> (r: String)
    ensures
        r@ == after_last_slash(url@),
{
    after_last_slash_of(url)
}

/// Whether an HTTP status is a success (2xx).
pub open spec fn is_success(status: u16) -> bool {
    200 <= status <= 299
}

/// Accepts a success status (2xx, WebDAV's 207 Multi-Status among them)
/// and turns any other into `Error::Http` with the URL and the status.
pub fn check_http_status(url: &str, status: u16) -> (r: Result<(), Error>)
    ensures
        r is Ok <==> is_success(status),
        r matches Err(e) ==> (e matches Error::Http { url: u, status: st } && u@ == url@ && st
            == status),
{
    if 200 <= status && status <= 299 {
        Ok(())
    } else {
        Err(Error::Http { url: String::from_str(url), status })
    }
}

/// The length announced by a `Content-Length` header value, if it is a
/// decimal `u64`.
pub fn remote_length(header: Option<&str>) -> (r: Option<u64>)
    ensures
        header is None ==> r is None,
        header matches Some(h) ==> r == parse_u64_spec(h@),
{
    match header {
        Some(h) => parse_u64(h),
        None => None,
    }
}

/// A download is skipped when the file is already there with exactly the
/// length that the server announces.
pub fn should_skip_download(local_len: Option<u64>, remote_len: Option<u64>) -> (r: bool)
    ensures
        r <==> (local_len is Some && remote_len is Some && local_len == remote_len),
{
    match (local_len, remote_len) {
        (Some(l), Some(rl)) => l == rl,
        _ => false,
    }
}

/// How many downloads run at once: the requested number, but at least one.
pub fn effective_concurrency(requested: usize) -> (r: usize)
    ensures
        r == if requested == 0 { 1 } else { requested },
{
    if requested == 0 { 1 } else { requested }
}

/// The URL of a period directory: the base without trailing slashes, a
/// slash, the period, and a slash.
pub open spec fn period_url_spec(base: Seq<char>, p: Period) -> Seq<char> {
    trim_end_slashes(base) + seq!['/'] + p.text() + seq!['/']
}

/// The URL of a period directory under `base`.
pub fn period_directory_url(base: &str, period: &Period) -> (r: String)
    ensures
        r@ == period_url_spec(base@, *period),
{
    let mut r = trim_trailing_slashes(base);
    r.push('/');
    let t = period.to_string();
    r.append(t.as_str());
    r.push('/');
    r
}

/// The URLs of files in a directory: the directory URL followed by each name.
pub fn file_urls(dir_url: &str, names: &Vec<String>) -> (r: Vec<String>)
    ensures
        r@.len() == names@.len(),
        forall|i: int| 0 <= i < names@.len() ==> #[trigger] r@[i]@ == dir_url@ + names@[i]@,
{
    let mut r: Vec<String> = Vec::new();
    let mut i: usize = 0;
    while i < names.len()
        invariant
            i <= names@.len(),
            r@.len() == i,
            forall|k: int| 0 <= k < i ==> #[trigger] r@[k]@ == dir_url@ + names@[k]@,
        decreases names.len() - i,
    {
        let mut u = String::from_str(dir_url);
        u.append(names[i].as_str());
        r.push(u);
        i = i + 1;
    }
    r
}

/// Whether a resource URL names a CSV file: its lower-cased form ends with
/// `.csv`.
pub open spec fn is_csv_url(u: Seq<char>) -> bool {
    ends_with(spec_to_lowercase(u), ".csv"@)
}

/// The first CSV resource among the URLs of a CKAN package; an
/// `Error::MissingData` when there is none.
pub fn select_csv_resource(urls: &Vec<String>) -> (r: Result<String, Error>)
    ensures
        r matches Ok(u) ==> exists|i: int|
            0 <= i < urls@.len() && #[trigger] urls@[i]@ == u@ && is_csv_url(u@) && forall|j: int|
                0 <= j < i ==> !is_csv_url(#[trigger] urls@[j]@),
        r is Err <==> forall|i: int| 0 <= i < urls@.len() ==> !is_csv_url(#[trigger] urls@[i]@),
        r matches Err(e) ==> (e matches Error::MissingData(m) && m@
            == "no CSV resource in CKAN response"@),
{
    let csv = chars_of(".csv");
    let mut i: usize = 0;
    while i < urls.len()
        invariant
            i <= urls@.len(),
            csv@ == ".csv"@,
            forall|j: int| 0 <= j < i ==> !is_csv_url(#[trigger] urls@[j]@),
        decreases urls.len() - i,
    {
        let lower = chars_of(to_lowercase(urls[i].as_str()).as_str());
        if chars_end_with(&lower, &csv) {
            let u = urls[i].clone();
            assert(urls@[i as int]@ == u@);
            return Ok(u);
        }
        i = i + 1;
    }
    Err(Error::MissingData(String::from_str("no CSV resource in CKAN response")))
}

} // verus!
