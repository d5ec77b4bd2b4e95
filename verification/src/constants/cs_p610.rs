//! Constants for SIKE P610

use vstd::prelude::*;

verus! {

/// Exponent e2 of the prime
pub const SIKE_P610_E2: &'static str = "00000131";

/// Exponent e3 of the prime
pub const SIKE_P610_E3: &'static str = "000000C0";

/// Size of sk2
pub const SIKE_P610_NKS2: &'static str = "00000027";

/// Size of sk3
pub const SIKE_P610_NKS3: &'static str = "00000026";

/// Prime p = 2^e2 3^e3 - 1
pub const SIKE_P610_P: &'static str = "000000027BF6A768819010C251E7D88CB255B2FA10C4252A9AE7BF45048FF9ABB1784DE8AA5AB02E6E01FFFFFFFFFFFFFFFFFFFFFFFFFFFFFFFFFFFFFFFFFFFFFFFFFFFFFFFFFFFFFFFFFFFFFFFFFFFF";

/// x-coordinate of the point P of order 2^e2, first component
pub const SIKE_P610_XP20: &'static str = "00000001B368BC6019B46CD802129209B3E65B98BC64A92BC4DB2F9F3AC96B97A1B9C124DF549B528F18BEECB1666D27D47530435E84221272F3A97FB80527D8F8A359F8F1598D365744CA3070A5F26C";
/// x-coordinate of the point P of order 2^e2, second component
pub const SIKE_P610_XP21: &'static str = "00000001459685DCA7112D1F6030DBC98F2C9CBB41617B6AD913E6523416CCBD8ED9C7841D97DF83092B9B3F2AF00D62E08DAD8FA743CBCCCC1782BE0186A3432D3C97C37CA16873BEDE01F0637C1AA2";

/// x-coordinate of the point Q of order 2^e2, first component
pub const SIKE_P610_XQ20: &'static str = "25DA39EC90CDFB9BC0F772CDA52CB8B5A9F478D7AF8DBBA0AEB3E52432822DD88C38F4E3AEC0746E56149F1FE89707C77F8BA4134568629724F4A8E34B06BFE5C5E66E0867EC38B283798B8A";
/// x-coordinate of the point Q of order 2^e2, second component
pub const SIKE_P610_XQ21: &'static str = "00000002250E1959256AE502428338CB4715399551AEC78D8935B2DC73FCDCFBDB1A0118A2D3EF03489BA6F637B1C7FEE7E5F31340A1A537B76B5B736B4CDD284918918E8C986FC02741FB8C98F0A0ED";

/// x-coordinate of the point R of order 2^e2, first component
pub const SIKE_P610_XR20: &'static str = "00000001B36A006D05F9E370D5078CCA54A16845B2BFF737C865368707C0DBBE9F5A62A9B9C79ADF11932A9FA4806210E25C92DB019CC146706DFBC7FA2638ECC4343C1E390426FAA7F2F07FDA163FB5";
/// x-coordinate of the point R of order 2^e2, second component
pub const SIKE_P610_XR21: &'static str = "0000000183C9ABF2297CA69699357F58FED92553436BBEBA2C3600D89522E7009D19EA5D6C18CFF993AA3AA33923ED93592B0637ED0B33ADF12388AE912BC4AE4749E2DF3C3292994DCF37747518A992";

/// x-coordinate of the point P of order 3^e3, first component
pub const SIKE_P610_XP30: &'static str = "000000014E647CB19B7EAAAC640A9C26B9C26DB7DEDA8FC9399F4F8CE620D2B2200480F4338755AE16D0E090F15EA1882166836A478C6E161C938E4EB8C2DD779B45FFDD17DCDF158AF48DE126B3A047";
/// x-coordinate of the point P of order 3^e3, second component
pub const SIKE_P610_XP31: &'static str = "00000000";

/// x-coordinate of the point Q of order 3^e3, first component
pub const SIKE_P610_XQ30: &'static str = "00000001587822E647707ED4313D3BE6A811A694FB201561111838A0816BFB5DEC625D23772DE48A26D78C04EEB26CA4A571C67CE4DC4C620282876B2F2FC2633CA548C3AB0C45CC991417A56F7FEFEB";
/// x-coordinate of the point Q of order 3^e3, second component
pub const SIKE_P610_XQ31: &'static str = "00000000";

/// x-coordinate of the point R of order 3^e3, first component
pub const SIKE_P610_XR30: &'static str = "00000001DB73BC2DE666D24E59AF5E23B79251BA0D189629EF87E56C38778A448FACE312D08EDFB876C3FD45ECF3746D96E2CADBBA08B1A206C47DDD93137059E34C90E2E42E10F30F6E5F52DED74222";
/// x-coordinate of the point R of order 3^e3, second component
pub const SIKE_P610_XR31: &'static str = "00000001B2C30180DAF5D91871555CE8EFEC76A4D521F877B754311228C7180A3E2318B4E7A00341FF99F34E35BF7A1053CA76FD77C0AFAE38E2091862AB4F1DD4C8D9C83DE37ACBA6646EDB4C238B48";

} // verus!
