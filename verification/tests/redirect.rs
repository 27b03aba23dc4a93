use private_search_engines::redirect::{extract_ddg_url, is_sponsored, resolve};

#[test]
fn redirect_with_destination_is_decoded() {
    let href = "//duckduckgo.com/l/?uddg=https%3A%2F%2Fwww.rust%2Dlang.org%2F&rut=0123abcd";
    assert_eq!(extract_ddg_url(href), Some("https://www.rust-lang.org/".to_string()));
    assert_eq!(resolve(href), "https://www.rust-lang.org/");
}

#[test]
fn absolute_redirect_is_decoded() {
    let href = "https://duckduckgo.com/l/?kh=-1&uddg=https%3A%2F%2Fexample.com%2Fa%3Fb%3Dc%26d%3De";
    assert_eq!(resolve(href), "https://example.com/a?b=c&d=e");
}

#[test]
fn relative_redirect_is_resolved_against_the_site() {
    assert_eq!(resolve("/l/?uddg=https%3A%2F%2Fexample.org%2F"), "https://example.org/");
    assert_eq!(resolve("?uddg=http%3A%2F%2Fa.b%2F"), "http://a.b/");
}

#[test]
fn first_destination_parameter_wins() {
    let href = "/l/?uddg=https%3A%2F%2Ffirst.example%2F&uddg=https%3A%2F%2Fsecond.example%2F";
    assert_eq!(resolve(href), "https://first.example/");
}

#[test]
fn destination_is_decoded_exactly_once() {
    let href = "/l/?uddg=https%3A%2F%2Fexample.com%2Fa%2520b";
    assert_eq!(extract_ddg_url(href), Some("https://example.com/a%20b".to_string()));
    assert_eq!(resolve(href), "https://example.com/a%20b");
    let percent = "/l/?uddg=https%3A%2F%2Fexample.com%2F%3Fq%3D100%2525";
    assert_eq!(extract_ddg_url(percent), Some("https://example.com/?q=100%25".to_string()));
}

#[test]
fn plus_signs_of_the_destination_are_kept() {
    assert_eq!(extract_ddg_url("/l/?uddg=a+b%2Bc"), Some("a+b+c".to_string()));
}

#[test]
fn characters_that_the_address_has_to_escape_come_back() {
    assert_eq!(resolve("/l/?uddg=https://example.com/a b"), "https://example.com/a b");
    assert_eq!(resolve("/l/?uddg=https://example.com/\u{fc}ber"), "https://example.com/\u{fc}ber");
}

#[test]
fn fragment_is_no_part_of_the_destination() {
    assert_eq!(resolve("/l/?uddg=https%3A%2F%2Fexample.com%2F#top"), "https://example.com/");
    assert_eq!(resolve("/l/?x=1#uddg=https%3A%2F%2Fexample.com%2F"), "/l/?x=1#uddg=https%3A%2F%2Fexample.com%2F");
}

#[test]
fn pair_without_equals_sign_and_empty_pairs() {
    assert_eq!(resolve("/l/?&&a&uddg=x%2Fy&"), "x/y");
    assert_eq!(resolve("/l/?uddg&uddg=later"), "");
    assert_eq!(resolve("/l/?a=uddg=1"), "/l/?a=uddg=1");
    assert_eq!(resolve("/l/?uddg=a=b%3Dc"), "a=b=c");
}

#[test]
fn link_without_destination_stays_as_it_is() {
    assert_eq!(
        extract_ddg_url("https://example.com/page?x=1&y=2"),
        Some("https://example.com/page?x=1&y=2".to_string())
    );
    assert_eq!(resolve("https://example.com/page?x=1&y=2"), "https://example.com/page?x=1&y=2");
    assert_eq!(resolve("/relative/path"), "/relative/path");
    assert_eq!(resolve(""), "");
    assert_eq!(resolve("//duckduckgo.com/l/?xuddg=https%3A%2F%2Fexample.com"), "//duckduckgo.com/l/?xuddg=https%3A%2F%2Fexample.com");
}

#[test]
fn key_is_compared_as_it_is_written() {
    assert_eq!(resolve("/l/?UDDG=https%3A%2F%2Fexample.com%2F"), "/l/?UDDG=https%3A%2F%2Fexample.com%2F");
    assert_eq!(resolve("/l/?u%64dg=https%3A%2F%2Fexample.com%2F"), "/l/?u%64dg=https%3A%2F%2Fexample.com%2F");
    assert_eq!(resolve("/l/?uddg2=a&uddg=b"), "b");
}

#[test]
fn destination_that_is_not_utf8_falls_back_to_the_link() {
    let href = "/l/?uddg=%FF";
    assert_eq!(extract_ddg_url(href), None);
    assert_eq!(resolve(href), href);
    let longer = "/l/?uddg=https%3A%2F%2Fexample.com%2F%FF%FE&rut=1";
    assert_eq!(extract_ddg_url(longer), None);
    assert_eq!(resolve(longer), longer);
}

#[test]
fn escape_that_is_cut_short_stays_as_it_is() {
    assert_eq!(resolve("/l/?uddg=100%"), "100%");
    assert_eq!(resolve("/l/?uddg=%zz%41"), "%zzA");
}

#[test]
fn link_that_cannot_be_joined_falls_back_to_itself() {
    let href = "https://[not-a-host/?uddg=https%3A%2F%2Fexample.com%2F";
    assert_eq!(extract_ddg_url(href), None);
    assert_eq!(resolve(href), href);
}

#[test]
fn empty_destination_is_an_empty_address() {
    assert_eq!(extract_ddg_url("/l/?uddg="), Some(String::new()));
    assert_eq!(extract_ddg_url("/l/?uddg"), Some(String::new()));
}

#[test]
fn sponsored_markers() {
    assert!(is_sponsored("https://duckduckgo.com/y.js?ad_domain=example.com&ad_provider=bing"));
    assert!(is_sponsored("https://duckduckgo.com/y.js?ad_provider=bing"));
    assert!(is_sponsored("x?ad_domain"));
    assert!(is_sponsored("?ad_provider"));
    assert!(!is_sponsored("https://example.com/?q=ad_domain"));
    assert!(!is_sponsored("https://example.com/?x=1&ad_domain=2"));
    assert!(!is_sponsored("https://example.com/ad_provider"));
    assert!(!is_sponsored("?ad_domai"));
    assert!(!is_sponsored(""));
}
