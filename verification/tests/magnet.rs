use magneturi::uri::UriParts;
use magneturi::{Error, MagnetUri, Resource};

fn pair(key: &str, value: &str) -> (String, String) {
    (key.to_owned(), value.to_owned())
}

fn magnet_of(pairs: Vec<(String, String)>) -> MagnetUri {
    let parts = UriParts { scheme: "magnet".to_owned(), has_query: true, pairs };
    MagnetUri::from_parts(parts).unwrap()
}

fn texts(items: &[&str]) -> Vec<String> {
    items.iter().map(|s| s.to_string()).collect()
}

#[test]
fn test_mediawiki() {
    let uri = "magnet:?xt=urn:ed2k:354B15E68FB8F36D7CD88FF94116CDC1
&xt=urn:tree:tiger:7N5OAMRNGMSSEUE3ORHOKWN4WWIQ5X4EBOOTLJY
&xt=urn:btih:QHQXPYWMACKDWKP47RRVIV7VOURXFE5Q
&xl=10826029&dn=mediawiki-1.15.1.tar.gz
&tr=udp%3A%2F%2Ftracker.openbittorrent.com%3A80%2Fannounce
&as=http%3A%2F%2Fdownload.wikimedia.org%2Fmediawiki%2F1.15%2Fmediawiki-1.15.1.tar.gz
&xs=http%3A%2F%2Fcache.example.org%2FXRX2PEFXOOEJFRVUCX6HMZMKS5TWG4K5
&xs=dchub://example.org";

    let magnet = MagnetUri::parse(uri).ok().unwrap();
    let res = magnet.resources().ok().unwrap()[0].clone();

    assert_eq!(res.hashes[0], "urn:ed2k:354B15E68FB8F36D7CD88FF94116CDC1");
    assert_eq!(res.hashes[1], "urn:tree:tiger:7N5OAMRNGMSSEUE3ORHOKWN4WWIQ5X4EBOOTLJY");
    assert_eq!(res.hashes[2], "urn:btih:QHQXPYWMACKDWKP47RRVIV7VOURXFE5Q");
    assert_eq!(res.size, Some(10826029));
    assert_eq!(res.name, Some("mediawiki-1.15.1.tar.gz".to_owned()));
    assert_eq!(res.trackers[0], "udp://tracker.openbittorrent.com:80/announce");
    assert_eq!(
        res.web_sources[0],
        "http://download.wikimedia.org/mediawiki/1.15/mediawiki-1.15.1.tar.gz"
    );
    assert_eq!(res.p2p_sources[0], "http://cache.example.org/XRX2PEFXOOEJFRVUCX6HMZMKS5TWG4K5");
    assert_eq!(res.p2p_sources[1], "dchub://example.org");
}

#[test]
fn test_https() {
    let uri = "https://www.google.com/";

    let magnet = MagnetUri::parse(uri);

    match magnet {
        Err(e) => assert_eq!(e, magneturi::Error::InvalidScheme("https".to_owned())),
        _ => panic!("Did not invalidate HTTPS URI."),
    }
}

#[test]
fn mediawiki_is_one_whole_resource() {
    let uri = "magnet:?xt=urn:ed2k:354B15E68FB8F36D7CD88FF94116CDC1\
&xt=urn:tree:tiger:7N5OAMRNGMSSEUE3ORHOKWN4WWIQ5X4EBOOTLJY\
&xt=urn:btih:QHQXPYWMACKDWKP47RRVIV7VOURXFE5Q\
&xl=10826029&dn=mediawiki-1.15.1.tar.gz\
&tr=udp%3A%2F%2Ftracker.openbittorrent.com%3A80%2Fannounce\
&as=http%3A%2F%2Fdownload.wikimedia.org%2Fmediawiki%2F1.15%2Fmediawiki-1.15.1.tar.gz\
&xs=http%3A%2F%2Fcache.example.org%2FXRX2PEFXOOEJFRVUCX6HMZMKS5TWG4K5\
&xs=dchub://example.org";
    let list = MagnetUri::parse(uri).unwrap().resources().unwrap();
    let expected = Resource {
        name: Some("mediawiki-1.15.1.tar.gz".to_owned()),
        size: Some(10826029),
        hashes: texts(&[
            "urn:ed2k:354B15E68FB8F36D7CD88FF94116CDC1",
            "urn:tree:tiger:7N5OAMRNGMSSEUE3ORHOKWN4WWIQ5X4EBOOTLJY",
            "urn:btih:QHQXPYWMACKDWKP47RRVIV7VOURXFE5Q",
        ]),
        web_sources: texts(&[
            "http://download.wikimedia.org/mediawiki/1.15/mediawiki-1.15.1.tar.gz",
        ]),
        p2p_sources: texts(&[
            "http://cache.example.org/XRX2PEFXOOEJFRVUCX6HMZMKS5TWG4K5",
            "dchub://example.org",
        ]),
        keywords: vec![],
        manifests: vec![],
        trackers: texts(&["udp://tracker.openbittorrent.com:80/announce"]),
        supplement: vec![],
    };
    assert_eq!(list, vec![expected]);
}

#[test]
fn parse_reports_what_the_uri_parser_said() {
    assert_eq!(
        MagnetUri::parse("no scheme here"),
        Err(Error::ParseError(url::ParseError::RelativeUrlWithoutBase))
    );
    assert_eq!(
        MagnetUri::parse(""),
        Err(Error::ParseError(url::ParseError::RelativeUrlWithoutBase))
    );
}

#[test]
fn parse_lowers_the_scheme_before_judging_it() {
    let magnet = MagnetUri::parse("MAGNET:?dn=a").unwrap();
    assert_eq!(magnet.resources().unwrap()[0].name, Some("a".to_owned()));
    assert_eq!(
        MagnetUri::parse("HTTPS://example.org/?dn=a"),
        Err(Error::InvalidScheme("https".to_owned()))
    );
}

#[test]
fn parse_wants_a_query() {
    assert_eq!(MagnetUri::parse("magnet:"), Err(Error::EmptyQuery));
    assert_eq!(MagnetUri::parse("magnet:abc#dn=a"), Err(Error::EmptyQuery));
}

#[test]
fn parse_judges_the_scheme_before_the_query() {
    assert_eq!(
        MagnetUri::parse("mailto:a@example.org"),
        Err(Error::InvalidScheme("mailto".to_owned()))
    );
}

#[test]
fn query_without_pairs_gives_no_resource() {
    let magnet = MagnetUri::parse("magnet:?").unwrap();
    assert_eq!(magnet.resources(), Ok(vec![]));
    let magnet = MagnetUri::parse("magnet:?&&").unwrap();
    assert_eq!(magnet.resources(), Ok(vec![]));
}

#[test]
fn parse_decodes_keys_and_values() {
    let magnet = MagnetUri::parse("magnet:?d%6E=a+b%26c&x.my%5Ffield=1%3D2").unwrap();
    let list = magnet.resources().unwrap();
    assert_eq!(list.len(), 1);
    assert_eq!(list[0].name, Some("a b&c".to_owned()));
    assert_eq!(list[0].supplement, vec![pair("my_field", "1=2")]);
}

#[test]
fn parse_keeps_keys_for_later() {
    let magnet = MagnetUri::parse("magnet:?zz=1").unwrap();
    assert_eq!(magnet.resources(), Err(Error::InvalidParameter("zz".to_owned())));
}

#[test]
fn from_parts_judges_scheme_then_query() {
    let parts = UriParts { scheme: "https".to_owned(), has_query: false, pairs: vec![] };
    assert_eq!(MagnetUri::from_parts(parts), Err(Error::InvalidScheme("https".to_owned())));
    let parts = UriParts { scheme: "Magnet".to_owned(), has_query: true, pairs: vec![] };
    assert_eq!(MagnetUri::from_parts(parts), Err(Error::InvalidScheme("Magnet".to_owned())));
    let parts = UriParts { scheme: "".to_owned(), has_query: true, pairs: vec![] };
    assert_eq!(MagnetUri::from_parts(parts), Err(Error::InvalidScheme("".to_owned())));
    let parts = UriParts { scheme: "magnet".to_owned(), has_query: false, pairs: vec![] };
    assert_eq!(MagnetUri::from_parts(parts), Err(Error::EmptyQuery));
    let parts = UriParts { scheme: "magnet".to_owned(), has_query: true, pairs: vec![] };
    assert!(MagnetUri::from_parts(parts).is_ok());
}

#[test]
fn from_parts_keeps_the_pairs_in_order() {
    let by_parts = magnet_of(vec![pair("xt", "b"), pair("xt", "a"), pair("xt", "b")]);
    let by_text = MagnetUri::parse("magnet:?xt=b&xt=a&xt=b").unwrap();
    assert_eq!(by_parts, by_text);
    assert_eq!(by_parts.resources().unwrap()[0].hashes, texts(&["b", "a", "b"]));
}

#[test]
fn ungrouped_keys_fill_one_resource() {
    let magnet = magnet_of(vec![
        pair("xt", "h1"),
        pair("xt", "h2"),
        pair("xt", "h3"),
        pair("xl", "42"),
        pair("dn", "name"),
        pair("tr", "t"),
        pair("as", "w"),
        pair("xs", "peer-a"),
        pair("xs", "peer-b"),
        pair("kt", "k"),
        pair("mt", "m"),
    ]);
    let expected = Resource {
        name: Some("name".to_owned()),
        size: Some(42),
        hashes: texts(&["h1", "h2", "h3"]),
        web_sources: texts(&["w"]),
        p2p_sources: texts(&["peer-a", "peer-b"]),
        keywords: texts(&["k"]),
        manifests: texts(&["m"]),
        trackers: texts(&["t"]),
        supplement: vec![],
    };
    assert_eq!(magnet.resources(), Ok(vec![expected]));
}

#[test]
fn grouped_keys_fill_their_own_resources() {
    let magnet = magnet_of(vec![
        pair("dn.0", "first"),
        pair("dn.1", "second"),
        pair("xt.0", "h0"),
        pair("xt.1", "h1"),
    ]);
    let list = magnet.resources().unwrap();
    assert_eq!(list.len(), 2);
    assert_eq!(list[0].name, Some("first".to_owned()));
    assert_eq!(list[0].hashes, texts(&["h0"]));
    assert_eq!(list[1].name, Some("second".to_owned()));
    assert_eq!(list[1].hashes, texts(&["h1"]));
}

#[test]
fn grouped_resources_come_in_group_order() {
    let magnet = magnet_of(vec![pair("dn.2", "c"), pair("dn.0", "a"), pair("dn.1", "b")]);
    let names: Vec<Option<String>> =
        magnet.resources().unwrap().into_iter().map(|r| r.name).collect();
    assert_eq!(names, vec![Some("a".to_owned()), Some("b".to_owned()), Some("c".to_owned())]);
}

#[test]
fn mixed_grouping_is_rejected_either_way() {
    let magnet = magnet_of(vec![pair("dn.0", "a"), pair("tr", "t")]);
    assert_eq!(magnet.resources(), Err(Error::InconsistentGrouping));
    let magnet = magnet_of(vec![pair("tr", "t"), pair("dn.0", "a")]);
    assert_eq!(magnet.resources(), Err(Error::InconsistentGrouping));
    let magnet = magnet_of(vec![pair("dn.1", "a"), pair("xt.1", "h"), pair("x.f", "v")]);
    assert_eq!(magnet.resources(), Err(Error::InconsistentGrouping));
}

#[test]
fn unknown_key_is_rejected() {
    let magnet = magnet_of(vec![pair("zz", "1")]);
    assert_eq!(magnet.resources(), Err(Error::InvalidParameter("zz".to_owned())));
}

#[test]
fn first_pair_at_fault_decides_the_error() {
    let magnet = magnet_of(vec![pair("dn.0", "a"), pair("zz", "1"), pair("tr", "t")]);
    assert_eq!(magnet.resources(), Err(Error::InvalidParameter("zz".to_owned())));
    let magnet = magnet_of(vec![pair("dn.0", "a"), pair("tr", "t"), pair("zz", "1")]);
    assert_eq!(magnet.resources(), Err(Error::InconsistentGrouping));
    let magnet = magnet_of(vec![pair("xl", "ten"), pair("dn.0", "a")]);
    assert_eq!(magnet.resources(), Err(Error::InvalidLength("ten".to_owned())));
    let magnet = magnet_of(vec![pair("dn", "a"), pair("xl.0", "ten")]);
    assert_eq!(magnet.resources(), Err(Error::InconsistentGrouping));
    let magnet = magnet_of(vec![pair("dn", "a"), pair("xl.zero", "10")]);
    assert_eq!(magnet.resources(), Err(Error::InvalidGroupIndex("xl.zero".to_owned())));
}

#[test]
fn extension_goes_to_the_supplement() {
    let magnet = magnet_of(vec![pair("x.myfield", "v")]);
    let list = magnet.resources().unwrap();
    assert_eq!(list.len(), 1);
    assert_eq!(list[0].supplement, vec![pair("myfield", "v")]);
}

#[test]
fn extensions_keep_their_order_and_group() {
    let magnet = magnet_of(vec![
        pair("x.b.1", "1"),
        pair("x.a.0", "2"),
        pair("x.b.1", "3"),
        pair("x.a.1", "4"),
    ]);
    let list = magnet.resources().unwrap();
    assert_eq!(list.len(), 2);
    assert_eq!(list[0].supplement, vec![pair("a", "2")]);
    assert_eq!(list[1].supplement, vec![pair("b", "1"), pair("b", "3"), pair("a", "4")]);
}

#[test]
fn resources_gives_the_same_twice() {
    let magnet = magnet_of(vec![pair("dn.1", "b"), pair("xt.0", "h"), pair("xl.1", "7")]);
    let first = magnet.resources();
    let second = magnet.resources();
    assert!(first.is_ok());
    assert_eq!(first, second);
    let faulty = magnet_of(vec![pair("dn.1", "b"), pair("nope", "h")]);
    assert_eq!(faulty.resources(), faulty.resources());
    assert_eq!(faulty.resources(), Err(Error::InvalidParameter("nope".to_owned())));
}

#[test]
fn gaps_are_filled_with_empty_resources() {
    let magnet = magnet_of(vec![pair("dn.0", "a"), pair("dn.2", "c")]);
    let list = magnet.resources().unwrap();
    assert_eq!(list.len(), 3);
    assert_eq!(list[0].name, Some("a".to_owned()));
    assert_eq!(list[1], Resource::default());
    assert_eq!(list[2].name, Some("c".to_owned()));
}

#[test]
fn single_high_group_pads_from_zero() {
    let magnet = magnet_of(vec![pair("xt.3", "h")]);
    let list = magnet.resources().unwrap();
    assert_eq!(list.len(), 4);
    assert_eq!(list[0], Resource::default());
    assert_eq!(list[1], Resource::default());
    assert_eq!(list[2], Resource::default());
    assert_eq!(list[3].hashes, texts(&["h"]));
}

#[test]
fn no_pairs_give_no_resource() {
    let magnet = magnet_of(vec![]);
    assert_eq!(magnet.resources(), Ok(vec![]));
}

#[test]
fn later_name_and_size_replace_earlier_ones() {
    let magnet = magnet_of(vec![
        pair("dn", "old"),
        pair("xl", "1"),
        pair("dn", "new"),
        pair("xl", "2"),
    ]);
    let list = magnet.resources().unwrap();
    assert_eq!(list.len(), 1);
    assert_eq!(list[0].name, Some("new".to_owned()));
    assert_eq!(list[0].size, Some(2));
}

#[test]
fn bad_length_is_rejected() {
    for value in ["", "abc", "12a", "-1", "1.5", " 1", "1 ", "0x10", "+"] {
        let magnet = magnet_of(vec![pair("xl", value)]);
        assert_eq!(magnet.resources(), Err(Error::InvalidLength(value.to_owned())));
    }
    let too_large = "340282366920938463463374607431768211456";
    let magnet = magnet_of(vec![pair("xl", too_large)]);
    assert_eq!(magnet.resources(), Err(Error::InvalidLength(too_large.to_owned())));
}

#[test]
fn length_is_read_as_decimal() {
    let magnet = magnet_of(vec![pair("xl", "0")]);
    assert_eq!(magnet.resources().unwrap()[0].size, Some(0));
    let magnet = magnet_of(vec![pair("xl", "0010")]);
    assert_eq!(magnet.resources().unwrap()[0].size, Some(10));
    let magnet = magnet_of(vec![pair("xl", "+10826029")]);
    assert_eq!(magnet.resources().unwrap()[0].size, Some(10826029));
    let largest = usize::MAX.to_string();
    let magnet = magnet_of(vec![pair("xl", &largest)]);
    assert_eq!(magnet.resources().unwrap()[0].size, Some(usize::MAX));
}

#[test]
fn bad_group_is_rejected() {
    for key in ["dn.", "dn.a", "dn.-1", "dn.1x", "x.name.", "x.name.one", "dn..1"] {
        let magnet = magnet_of(vec![pair(key, "v")]);
        assert_eq!(magnet.resources(), Err(Error::InvalidGroupIndex(key.to_owned())));
    }
}

#[test]
fn empty_default_resource() {
    let r = Resource::default();
    assert_eq!(r.name, None);
    assert_eq!(r.size, None);
    assert!(r.hashes.is_empty());
    assert!(r.web_sources.is_empty());
    assert!(r.p2p_sources.is_empty());
    assert!(r.keywords.is_empty());
    assert!(r.manifests.is_empty());
    assert!(r.trackers.is_empty());
    assert!(r.supplement.is_empty());
}
