//! Checks the library's wire grammar against an independent RADIUS
//! parser on the same bytes.

use semicircle::codec::{decode, encode, parse};
use semicircle::pkt::{Ipv4Address, RadiusAttribute, RadiusCode, RadiusData};

#[test]
fn grammar_agrees_with_independent_parser() {
    let p = RadiusData {
        code: RadiusCode::AccessRequest,
        identifier: 33,
        authenticator: (100u8..116u8).collect(),
        attributes: vec![
            RadiusAttribute::UserName(b"carol".to_vec()),
            RadiusAttribute::NasPort(7),
            RadiusAttribute::NasIPAddress(Ipv4Address::new(10, 1, 2, 3)),
            RadiusAttribute::FramedMTU(1500),
            RadiusAttribute::Unknown(99, vec![5, 6]),
        ],
    };
    let w = encode(&p).unwrap();

    let (rest, rp) = radius_parser::parse_radius_data(&w).unwrap();
    assert!(rest.is_empty());
    assert_eq!(rp.code, radius_parser::RadiusCode::AccessRequest);
    assert_eq!(rp.identifier, 33);
    assert_eq!(rp.length as usize, w.len());
    assert_eq!(rp.authenticator, (100u8..116u8).collect::<Vec<u8>>().as_slice());
    let attrs = rp.attributes.unwrap();
    assert_eq!(attrs.len(), 5);
    assert_eq!(attrs[0], radius_parser::RadiusAttribute::UserName(b"carol"));
    assert_eq!(attrs[1], radius_parser::RadiusAttribute::NasPort(7));
    match &attrs[2] {
        radius_parser::RadiusAttribute::NasIPAddress(ip) => {
            assert_eq!(ip.octets(), [10, 1, 2, 3]);
        }
        other => panic!("unexpected attribute {:?}", other),
    }
    assert_eq!(attrs[3], radius_parser::RadiusAttribute::FramedMTU(1500));
    assert_eq!(attrs[4], radius_parser::RadiusAttribute::Unknown(99, &[5, 6]));

    // And the library decodes what it encoded.
    assert_eq!(decode(parse(&w).unwrap()).unwrap(), p);
}
