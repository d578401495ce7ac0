use libscoop::archive::{extract, is_archive_url, ExtractMethod};

#[test]
fn archive_urls_by_suffix() {
    assert!(is_archive_url("https://example.com/pkg.zip"));
    assert!(is_archive_url("https://example.com/pkg.7z"));
    assert!(is_archive_url("https://example.com/pkg.tar.gz"));
    assert!(is_archive_url("https://example.com/pkg.tgz"));
    assert!(is_archive_url("https://example.com/pkg.tar.bz2"));
    assert!(is_archive_url("https://example.com/pkg.tar.xz"));
    assert!(is_archive_url("https://example.com/pkg.tar"));
    assert!(is_archive_url("https://example.com/pkg.gz"));
    assert!(!is_archive_url("https://example.com/pkg.exe"));
    assert!(!is_archive_url("https://example.com/pkg.msi"));
}

#[test]
fn archive_urls_ignore_case_and_query() {
    assert!(is_archive_url("https://example.com/PKG.ZIP"));
    assert!(is_archive_url("https://example.com/pkg.zip?download=1"));
    assert!(!is_archive_url("https://example.com/pkg.exe?name=a.zip"));
    assert!(is_archive_url("https://example.com/pkg.Tar.Gz?x=1#frag"));
    assert!(!is_archive_url("https://example.com/pkg.tar.gz#frag"));
}

#[test]
fn extract_picks_zip_or_seven_zip() {
    match extract("C:/cache/pkg.ZIP", "C:/dest") {
        ExtractMethod::Zip => {}
        _ => panic!("zip expected"),
    }
    match extract("C:/cache/pkg.7z", "C:/dest") {
        ExtractMethod::SevenZip(args) => {
            assert_eq!(args, vec!["x", "C:/cache/pkg.7z", "-oC:/dest", "-y"]);
        }
        _ => panic!("7z expected"),
    }
}

#[test]
fn archive_check_ignores_query_and_case() {
    let p = "https://example.org/dl/tool-1.2.tar.gz";
    assert!(is_archive_url(p));
    assert!(is_archive_url(&format!("{}?{}", p, "mirror=1&x.exe")));
    assert!(is_archive_url(&p.to_ascii_uppercase()));
    let q = "https://example.org/dl/tool.exe";
    assert!(!is_archive_url(q));
    assert!(!is_archive_url(&format!("{}?{}", q, "f=a.zip")));
    assert!(!is_archive_url(&q.to_ascii_uppercase()));
}
