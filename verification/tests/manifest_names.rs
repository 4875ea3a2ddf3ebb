use bdex::manifest::Metadata;

#[test]
fn the_marker_before_an_identifier_is_dropped() {
    assert_eq!(Metadata::identifier("bdex://0123abcd"), "0123abcd");
    assert_eq!(Metadata::identifier("0123abcd"), "0123abcd");
    assert_eq!(Metadata::identifier("bdex://"), "");
    assert_eq!(Metadata::identifier(""), "");
    assert_eq!(Metadata::identifier("bdex:/"), "bdex:/");
    assert_eq!(Metadata::identifier("bdex:/x/0123"), "bdex:/x/0123");
    assert_eq!(Metadata::identifier("xbdex://0123"), "xbdex://0123");
}

#[test]
fn the_marker_is_dropped_once() {
    assert_eq!(Metadata::identifier("bdex://bdex://0123"), "bdex://0123");
}

#[test]
fn the_address_of_a_manifest() {
    assert_eq!(
        Metadata::address("0123abcd"),
        "https://i0.hdslb.com/bfs/album/0123abcd.png"
    );
    assert_eq!(Metadata::address(""), "https://i0.hdslb.com/bfs/album/.png");
}
