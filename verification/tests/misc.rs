use sfy::wire::{A16, G16, Lat16, Lon16, Msl16, T16};

#[test]
fn it_works() {
    assert_eq!(2 + 2, 4);
}

#[test]
fn packed_values_round_trip() {
    for u in [0u16, 1, 32768, u16::MAX] {
        assert_eq!(A16::from_u16(u).to_u16(), u);
        assert_eq!(G16::from_u16(u).to_u16(), u);
        assert_eq!(Lon16::from_u16(u).to_u16(), u);
        assert_eq!(Lat16::from_u16(u).to_u16(), u);
        assert_eq!(Msl16::from_u16(u).to_u16(), u);
        assert_eq!(T16::from_u16(u).to_u16(), u);
    }
}
