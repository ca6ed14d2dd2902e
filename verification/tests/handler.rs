use homepage::config::Config;
use homepage::config::Link;
use homepage::handler::find_host;
use homepage::handler::handle_request;
use homepage::handler::HttpReply;

const PAGE: &str = "<html>__SECTIONS__</html>";
const SECTION: &str = "<a href=\"__URL__\">__TITLE__:__SUB_HEADING__</a>";

fn headers(pairs: &[(&str, &str)]) -> Vec<(String, String)> {
    pairs.iter().map(|(f, v)| (f.to_string(), v.to_string())).collect()
}

fn link(title: &str, port: Option<u32>, url: Option<&str>, sub_heading: Option<&str>) -> Link {
    Link {
        title: title.to_string(),
        port,
        url: url.map(|u| u.to_string()),
        sub_heading: sub_heading.map(|s| s.to_string()),
    }
}

fn empty_config() -> Config {
    Config { server: None, link: vec![] }
}

#[test]
fn favicon_path_gets_the_favicon_bytes() {
    let favicon: Vec<u8> = vec![0x89, b'P', b'N', b'G', 0, 1, 2, 3];
    let hs = headers(&[("Host", "site.test")]);
    let r = handle_request("/favicon.png", &hs, &empty_config(), PAGE, SECTION, &favicon);
    assert_eq!(r.status(), 200);
    match r {
        HttpReply::Favicon { body } => assert_eq!(body, favicon),
        _ => panic!("expected the favicon"),
    }
}

#[test]
fn favicon_served_without_host_header() {
    let favicon: Vec<u8> = vec![1, 2, 3];
    let hs = headers(&[]);
    let r = handle_request("/favicon.png", &hs, &empty_config(), PAGE, SECTION, &favicon);
    match r {
        HttpReply::Favicon { body } => assert_eq!(body, favicon),
        _ => panic!("expected the favicon"),
    }
}

#[test]
fn missing_host_header_is_a_400() {
    let favicon: Vec<u8> = vec![];
    let hs = headers(&[("Accept", "text/html")]);
    let r = handle_request("/", &hs, &empty_config(), PAGE, SECTION, &favicon);
    assert_eq!(r.status(), 400);
    match r {
        HttpReply::BadRequest { body } => assert_eq!(body, "No Host header"),
        _ => panic!("expected a bad request"),
    }
}

#[test]
fn two_links_render_in_order() {
    let favicon: Vec<u8> = vec![];
    let hs = headers(&[("Host", "site.test")]);
    let config = Config {
        server: None,
        link: vec![
            link("A", None, Some("https://a.example"), None),
            link("B", Some(3000), None, Some("Panel")),
        ],
    };
    let r = handle_request("/", &hs, &config, PAGE, SECTION, &favicon);
    assert_eq!(r.status(), 200);
    match r {
        HttpReply::Page { body } => {
            assert_eq!(
                body,
                "<html><a href=\"https://a.example\">A:/</a>\n<a href=\"//site.test:3000\">B:Panel</a></html>"
            );
            let a = body.find("https://a.example").unwrap();
            let b = body.find("//site.test:3000").unwrap();
            assert!(a < b);
        }
        _ => panic!("expected the page"),
    }
}

#[test]
fn host_header_field_is_case_insensitive() {
    let favicon: Vec<u8> = vec![];
    let hs = headers(&[("hOsT", "site.test")]);
    let config = Config { server: None, link: vec![link("A", Some(81), None, None)] };
    let r = handle_request("/", &hs, &config, PAGE, SECTION, &favicon);
    match r {
        HttpReply::Page { body } => {
            assert_eq!(body, "<html><a href=\"//site.test:81\">A:/</a></html>")
        }
        _ => panic!("expected the page"),
    }
}

#[test]
fn path_other_than_favicon_renders_the_page() {
    let favicon: Vec<u8> = vec![9, 9];
    let hs = headers(&[("Host", "h")]);
    let config = Config { server: None, link: vec![] };
    let r = handle_request("/anything/else", &hs, &config, PAGE, SECTION, &favicon);
    match r {
        HttpReply::Page { body } => assert_eq!(body, "<html></html>"),
        _ => panic!("expected the page"),
    }
}

#[test]
fn fresh_config_is_reflected_in_the_next_reply() {
    let favicon: Vec<u8> = vec![];
    let hs = headers(&[("Host", "h")]);
    let first = Config { server: None, link: vec![link("Old", None, Some("u1"), None)] };
    let second = Config { server: None, link: vec![link("New", None, Some("u2"), None)] };
    let r1 = handle_request("/", &hs, &first, PAGE, SECTION, &favicon);
    let r2 = handle_request("/", &hs, &second, PAGE, SECTION, &favicon);
    match (r1, r2) {
        (HttpReply::Page { body: b1 }, HttpReply::Page { body: b2 }) => {
            assert_eq!(b1, "<html><a href=\"u1\">Old:/</a></html>");
            assert_eq!(b2, "<html><a href=\"u2\">New:/</a></html>");
        }
        _ => panic!("expected two pages"),
    }
}

#[test]
fn content_types_match_the_reply_kind() {
    let favicon: Vec<u8> = vec![1];
    let with_host = headers(&[("Host", "h")]);
    let without_host = headers(&[]);
    let r = handle_request("/favicon.png", &with_host, &empty_config(), PAGE, SECTION, &favicon);
    assert_eq!(r.content_type(), Some("image/png"));
    let r = handle_request("/", &with_host, &empty_config(), PAGE, SECTION, &favicon);
    assert_eq!(r.content_type(), Some("text/html"));
    let r = handle_request("/", &without_host, &empty_config(), PAGE, SECTION, &favicon);
    assert_eq!(r.content_type(), None);
}

#[test]
fn find_host_returns_first_matching_header() {
    let hs = headers(&[("Accept", "x"), ("HOST", "first.test"), ("Host", "second.test")]);
    assert_eq!(find_host(&hs), Some("first.test".to_string()));
}

#[test]
fn find_host_none_when_absent() {
    let hs = headers(&[("Accept", "x"), ("Hostile", "y")]);
    assert_eq!(find_host(&hs), None);
}
