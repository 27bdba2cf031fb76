use matasano::{Producer, ToBytes, ToHex};

#[test]
fn it_works() {
    assert_eq!(2 + 2, 4);
}

#[test]
fn reexports_reach_the_whole_chain() {
    let mut hex = 0x0Au8.bytes().to_hex();
    assert_eq!(hex.next(), Some('0'));
    assert_eq!(hex.next(), Some('a'));
    assert_eq!(hex.next(), None);
}
