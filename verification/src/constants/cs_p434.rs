//! Constants for SIKE P434

use vstd::prelude::*;

verus! {

/// Exponent e2 of the prime
pub const SIKE_P434_E2: &'static str = "000000D8";

/// Exponent e3 of the prime
pub const SIKE_P434_E3: &'static str = "00000089";

/// Size of sk2
pub const SIKE_P434_NKS2: &'static str = "0000001B";

/// Size of sk3
pub const SIKE_P434_NKS3: &'static str = "0000001C";

/// Prime p = 2^e2 3^e3 - 1
pub const SIKE_P434_P: &'static str = "0002341F271773446CFC5FD681C520567BC65C783158AEA3FDC1767AE2FFFFFFFFFFFFFFFFFFFFFFFFFFFFFFFFFFFFFFFFFFFFFFFFFFFFFF";

/// x-coordinate of the point P of order 2^e2, first component
pub const SIKE_P434_XP20: &'static str = "00003CCFC5E1F050030363E6920A0F7A4C6C71E63DE63A0E6475AF621995705F7C84500CB2BB61E950E19EAB8661D25C4A50ED279646CB48";
/// x-coordinate of the point P of order 2^e2, second component
pub const SIKE_P434_XP21: &'static str = "0001AD1C1CAE7840EDDA6D8A924520F60E573D3B9DFAC6D189941CB22326D284A8816CC4249410FE80D68047D823C97D705246F869E3EA50";

/// x-coordinate of the point Q of order 2^e2, first component
pub const SIKE_P434_XQ20: &'static str = "0000C7461738340EFCF09CE388F666EB38F7F3AFD42DC0B664D9F461F31AA2EDC6B4AB71BD42F4D7C058E13F64B237EF7DDD2ABC0DEB0C6C";
/// x-coordinate of the point Q of order 2^e2, second component
pub const SIKE_P434_XQ21: &'static str = "000025DE37157F50D75D320DD0682AB4A67E471586FBC2D31AA32E6957FA2B2614C4CD40A1E27283EAAF4272AE517847197432E2D61C85F5";

/// x-coordinate of the point R of order 2^e2, first component
pub const SIKE_P434_XR20: &'static str = "0000F37AB34BA0CEAD94F43CDC50DE06AD19C67CE4928346E829CB92580DA84D7C36506A2516696BBE3AEB523AD7172A6D239513C5FD2516";
/// x-coordinate of the point R of order 2^e2, second component
pub const SIKE_P434_XR21: &'static str = "000196CA2ED06A657E90A73543F3902C208F410895B49CF84CD89BE9ED6E4EE7E8DF90B05F3FDB8BDFE489D1B3558E987013F9806036C5AC";

/// x-coordinate of the point P of order 3^e3, first component
pub const SIKE_P434_XP30: &'static str = "00008664865EA7D816F03B31E223C26D406A2C6CD0C3D667466056AAE85895EC37368BFC009DFAFCB3D97E639F65E9E45F46573B0637B7A9";
/// x-coordinate of the point P of order 3^e3, second component
pub const SIKE_P434_XP31: &'static str = "00000000";

/// x-coordinate of the point Q of order 3^e3, first component
pub const SIKE_P434_XQ30: &'static str = "00012E84D7652558E694BF84C1FBDAAF99B83B4266C32EC65B10457BCAF94C63EB063681E8B1E7398C0B241C19B9665FDB9E1406DA3D3846";
/// x-coordinate of the point Q of order 3^e3, second component
pub const SIKE_P434_XQ31: &'static str = "00000000";

/// x-coordinate of the point R of order 3^e3, first component
pub const SIKE_P434_XR30: &'static str = "0001CD28597256D4FFE7E002E87870752A8F8A64A1CC78B5A2122074783F51B4FDE90E89C48ED91A8F4A0CCBACBFA7F51A89CE518A52B76C";
/// x-coordinate of the point R of order 3^e3, second component
pub const SIKE_P434_XR31: &'static str = "000147073290D78DD0CC8420B1188187D1A49DBFA24F26AAD46B2D9BB547DBB6F63A760ECB0C2B20BE52FB77BD2776C3D14BCBC404736AE4";

} // verus!
