use ftml::page_ref::{PageRef, PageRefParseError};

fn check(input: &str, expected: Option<PageRef>) {
    let actual = PageRef::parse(input);
    let expected = expected.ok_or(PageRefParseError);

    println!("Input: {:?}", input);
    println!("Output: {:?}", actual);
    println!();

    assert_eq!(actual, expected, "Actual parse results don't match expected");
}

#[test]
fn page_ref() {
    check("", None);
    check(":page", None);
    check("::page", None);
    check("page", Some(PageRef::page_only("page".to_string())));
    check(
        "component:page",
        Some(PageRef::page_only("component:page".to_string())),
    );
    check(
        "deleted:secret:fragment:page",
        Some(PageRef::page_only("deleted:secret:fragment:page".to_string())),
    );
    check(
        ":scp-wiki:page",
        Some(PageRef::page_and_site("scp-wiki".to_string(), "page".to_string())),
    );
    check(
        ":scp-wiki:component:page",
        Some(PageRef::page_and_site("scp-wiki".to_string(), "component:page".to_string())),
    );
    check(
        ":scp-wiki:deleted:secret:fragment:page",
        Some(PageRef::page_and_site(
            "scp-wiki".to_string(),
            "deleted:secret:fragment:page".to_string(),
        )),
    );
}

#[test]
fn page_ref_trimming() {
    check("  page  ", Some(PageRef::page_only("page".to_string())));
    check(
        " :scp-wiki: page ",
        Some(PageRef::page_and_site("scp-wiki".to_string(), "page".to_string())),
    );
    check("   ", None);
    check(": :page", None);
    check(":site:", None);
}

#[test]
fn page_ref_no_panic_over_alphabet() {
    let samples = [
        "", ":", "::", ":::", "a:b:c", ":a:b:c", "zz..__", ":.", "..::..", "_", ":_:_",
        "aaaaaaaaaaaaaaaaaaaaaaaaaaaaaa", ":a:", "a:", ":aa", "::::a", "a::b", ":a::b",
    ];
    for s in samples {
        let _ = PageRef::parse(s);
    }
}

#[test]
fn page_ref_round_trip() {
    let inputs = ["page", "component:page", ":scp-wiki:page", ":scp-wiki:component:page"];
    for input in inputs {
        let first = PageRef::parse(input).expect("valid reference");
        let formatted = first.canonical_string();
        let second = PageRef::parse(&formatted).expect("round trip parses");
        assert_eq!(first, second, "round trip must be stable");
        assert_eq!(formatted, input, "canonical form of a canonical input");
    }
}

#[test]
fn page_ref_accessors() {
    let r = PageRef::page_and_site("scp-wiki".to_string(), "page".to_string());
    assert_eq!(r.site(), Some("scp-wiki"));
    assert_eq!(r.page(), "page");
    assert_eq!(r.fields(), (Some("scp-wiki"), "page"));
    assert_eq!(r.fields_or("other"), ("scp-wiki", "page"));
    let owned = r.to_owned();
    assert_eq!(owned, r);

    let local = PageRef::page_only("start".to_string());
    assert_eq!(local.site(), None);
    assert_eq!(local.fields_or("home-site"), ("home-site", "start"));
    assert_eq!(local.canonical_string(), "start");
    assert_eq!(
        PageRef::page_and_site("a".to_string(), "b:c".to_string()).canonical_string(),
        ":a:b:c",
    );
}
