use brandguard::http::{
    brand_label, fingerprint_lowered, fingerprint_page, fingerprint_page_checked, http_info,
};

#[test]
fn title_is_trimmed_and_matched_against_brand() {
    let page = "<html><head><TITLE>  Google Account \n</TITLE></head><body>Sign in</body></html>";
    let fp = fingerprint_page(200, page, "google.com");
    assert_eq!(fp.status, 200);
    assert_eq!(fp.title.as_deref(), Some("Google Account"));
    assert_eq!(fp.title_lower.as_deref(), Some("google account"));
    assert_eq!(fp.brand, "google");
    assert!(fp.title_mentions_brand);
    assert!(!fp.has_favicon);
    assert!(!fp.has_login_form);
    assert_eq!(fp.text_lower, page.to_lowercase());
}

#[test]
fn login_and_favicon_markers() {
    let page = "<link rel=\"icon\" href=\"/f.ico\"><form action=\"/x\"><input type=\"password\">";
    let fp = fingerprint_page(200, page, "brand.io");
    assert!(fp.has_favicon);
    assert!(fp.has_login_form);
    assert!(fp.title.is_none());
    assert!(!fp.title_mentions_brand);
    let fp = fingerprint_page(200, "<LINK REL=\"SHORTCUT ICON\"> please VERIFY", "brand.io");
    assert!(fp.has_favicon);
    assert!(fp.has_login_form);
}

#[test]
fn unclosed_title_gives_no_title() {
    let fp = fingerprint_page(404, "<title>never closed", "brand.io");
    assert!(fp.title.is_none());
    assert!(fp.title_lower.is_none());
    assert_eq!(fp.status, 404);
}

#[test]
fn title_not_naming_brand() {
    let fp = fingerprint_page(200, "<title>Welcome</title>", "brand.io");
    assert_eq!(fp.title.as_deref(), Some("Welcome"));
    assert!(!fp.title_mentions_brand);
}

#[test]
fn checked_refuses_cut_inside_a_character() {
    // 'İ' lowercases to two characters, three bytes instead of two, so the
    // tag positions found in the lowercase fall one byte late in the page
    let page = "\u{130}<title>\u{e9}</title>";
    assert!(fingerprint_page_checked(200, page, "brand.io").is_none());
    let ascii = "<title>Brand</title>";
    let fp = fingerprint_page_checked(200, ascii, "brand.io").unwrap();
    assert_eq!(fp.title.as_deref(), Some("Brand"));
    assert!(fp.title_mentions_brand);
}

#[test]
fn shifted_cut_on_boundaries_is_accepted() {
    let page = "\u{130}<title>x</title>";
    let fp = fingerprint_page_checked(200, page, "brand.io").unwrap();
    assert_eq!(fp.title.as_deref(), Some("<"));
}

#[test]
fn brand_labels() {
    assert_eq!(brand_label("Google.com"), "google");
    assert_eq!(brand_label("localhost"), "localhost");
    assert_eq!(brand_label("a.b.c"), "a");
}

#[test]
fn http_info_combines_brand_signals() {
    let fp = fingerprint_page(200, "<title>Welcome</title>", "brand.io");
    let h = http_info(fp, true);
    assert!(h.brand_title_match);
    let fp = fingerprint_page(200, "<title>Welcome</title>", "brand.io");
    assert!(!http_info(fp, false).brand_title_match);
    let fp = fingerprint_page(200, "no title here", "brand.io");
    let h = http_info(fp, true);
    assert!(!h.brand_title_match);
    assert_eq!(h.status, 200);
    assert!(h.title.is_none());
}

#[test]
fn favicon_served_from_brand_domain() {
    let page = "<link rel=\"icon\" href=\"https://cdn.Google.com/favicon.ico\"><p>google.com</p>";
    let fp = fingerprint_page(200, page, "Google.com");
    assert!(fp.has_favicon);
    assert!(fp.favicon_from_brand);
    assert!(http_info(fp, false).favicon_from_brand);
    // the brand named outside the icon tag does not count
    let page = "<link rel=\"icon\" href=\"/f.ico\"><p>google.com</p>";
    let fp = fingerprint_page(200, page, "google.com");
    assert!(fp.has_favicon);
    assert!(!fp.favicon_from_brand);
    // a second icon link may name it
    let page = "<link rel=\"icon\" href=\"/f.ico\"><link rel=\"shortcut icon\" href=\"//google.com/x.ico\">";
    assert!(fingerprint_page(200, page, "google.com").favicon_from_brand);
    // an unclosed tag runs to the end of the page
    assert!(fingerprint_page(200, "<link rel=\"icon\" href=google.com", "google.com").favicon_from_brand);
}

#[test]
fn fingerprint_of_a_lowercased_page() {
    let page = "<TITLE>Brand</TITLE>";
    let fp = fingerprint_lowered(200, page, page.to_lowercase(), "brand.io");
    assert_eq!(fp.title.as_deref(), Some("Brand"));
    assert!(fp.title_mentions_brand);
}
