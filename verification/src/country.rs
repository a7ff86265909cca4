//! The fixed catalog of supported currencies and the countries they belong
//! to. The catalog is built once at startup and shared read-only by every
//! refresh cycle.

use vstd::prelude::*;

verus! {

/// Base URL under which the per-country flag images live; the two-letter
/// country code plus ".svg" is appended to it.
pub const FLAG_API_URL: &'static str ="https://raw.githubusercontent.com/lipis/flag-icons/refs/heads/main/flags/4x3/";

/// One catalog entry: a currency code, the display name of the country it
/// belongs to, the URL of that country's flag image, and the two-letter
/// country code used as the key for the fetched flag bytes.
#[derive(Debug)]
pub struct Country {
    pub currency: String,
    pub name: String,
    pub flag: String,
    pub code: String,
}

impl Clone for Country {
    /// Field-for-field copy.
    fn clone(&self) -> (r: Country)
        ensures
            r == *self,
    {
        Country {
            currency: self.currency.clone(),
            name: self.name.clone(),
            flag: self.flag.clone(),
            code: self.code.clone(),
        }
    }
}

impl Country {
    /// A well-formed entry: the currency code has three letters, the country
    /// code is its first two, and the flag URL is derived from the country
    /// code.
    pub open spec fn wf(self) -> bool {
        &&& self.currency@.len() == 3
        &&& self.code@ == self.currency@.subrange(0, 2)
        &&& self.flag@ == FLAG_API_URL@ + self.code@ + ".svg"@
    }

    /// Builds one catalog entry from a currency code and a country name.
    pub fn new(currency: &str, name: &str) -> (r: Country)
        requires
            currency@.len() == 3,
        ensures
            r.wf(),
            r.currency@ == currency@,
            r.name@ == name@,
    {
        let code = currency.substring_char(0, 2);
        let mut flag = String::from_str(FLAG_API_URL);
        flag.append(code);
        flag.append(".svg");
        Country {
            currency: currency.to_owned(),
            name: name.to_owned(),
            flag,
            code: code.to_owned(),
        }
    }
}

/// The currency codes and country names of the catalog, in their fixed order.
pub open spec fn spec_catalog() -> Seq<(Seq<char>, Seq<char>)> {
    seq![
        ("aed"@, "United Arab Emirates"@),
        ("ars"@, "Argentina"@),
        ("aud"@, "Australia"@),
        ("bdt"@, "Bangladesh"@),
        ("bhd"@, "Bahrain"@),
        ("bmd"@, "Bermuda"@),
        ("brl"@, "Brazil"@),
        ("cad"@, "Canada"@),
        ("chf"@, "Switzerland"@),
        ("clp"@, "Chile"@),
        ("cny"@, "China"@),
        ("czk"@, "Czech Republic"@),
        ("dkk"@, "Denmark"@),
        ("gbp"@, "United Kingdom"@),
        ("gel"@, "Georgia"@),
        ("hkd"@, "China Hong Kong"@),
        ("huf"@, "Hungary"@),
        ("idr"@, "Indonesia"@),
        ("ils"@, "Israel"@),
        ("inr"@, "India"@),
        ("jpy"@, "Japan"@),
        ("krw"@, "South Korea"@),
        ("kwd"@, "Kuwait"@),
        ("lkr"@, "Sri Lanka"@),
        ("mmk"@, "Myanmar"@),
        ("mxn"@, "Mexico"@),
        ("myr"@, "Malaysia"@),
        ("ngn"@, "Nigeria"@),
        ("nok"@, "Norway"@),
        ("nzd"@, "New Zealand"@),
        ("php"@, "Philippines"@),
        ("pkr"@, "Pakistan"@),
        ("pln"@, "Poland"@),
        ("rub"@, "Russia"@),
        ("sar"@, "Saudi Arabia"@),
        ("sek"@, "Sweden"@),
        ("sgd"@, "Singapore"@),
        ("thb"@, "Thailand"@),
        ("try"@, "Turkey"@),
        ("twd"@, "China Taiwan"@),
        ("uah"@, "Ukraine"@),
        ("usd"@, "United States"@),
        ("vef"@, "Venezuela"@),
        ("vnd"@, "Vietnam"@),
        ("zar"@, "South Africa"@),
    ]
}

/// A sequence of countries that is exactly the fixed catalog.
pub open spec fn is_catalog(s: Seq<Country>) -> bool {
    &&& s.len() == spec_catalog().len()
    &&& forall|i: int|
        0 <= i < s.len() ==> {
            &&& (#[trigger] s[i]).wf()
            &&& s[i].currency@ == spec_catalog()[i].0
            &&& s[i].name@ == spec_catalog()[i].1
        }
}

/// Builds the full static catalog, in its fixed order.
pub fn get_countries() -> (r: Vec<Country>)
    ensures
        is_catalog(r@),
        r@.len() == 45,
{
    let table: Vec<(&str, &str)> = vec![
        ("aed", "United Arab Emirates"),
        ("ars", "Argentina"),
        ("aud", "Australia"),
        ("bdt", "Bangladesh"),
        ("bhd", "Bahrain"),
        ("bmd", "Bermuda"),
        ("brl", "Brazil"),
        ("cad", "Canada"),
        ("chf", "Switzerland"),
        ("clp", "Chile"),
        ("cny", "China"),
        ("czk", "Czech Republic"),
        ("dkk", "Denmark"),
        ("gbp", "United Kingdom"),
        ("gel", "Georgia"),
        ("hkd", "China Hong Kong"),
        ("huf", "Hungary"),
        ("idr", "Indonesia"),
        ("ils", "Israel"),
        ("inr", "India"),
        ("jpy", "Japan"),
        ("krw", "South Korea"),
        ("kwd", "Kuwait"),
        ("lkr", "Sri Lanka"),
        ("mmk", "Myanmar"),
        ("mxn", "Mexico"),
        ("myr", "Malaysia"),
        ("ngn", "Nigeria"),
        ("nok", "Norway"),
        ("nzd", "New Zealand"),
        ("php", "Philippines"),
        ("pkr", "Pakistan"),
        ("pln", "Poland"),
        ("rub", "Russia"),
        ("sar", "Saudi Arabia"),
        ("sek", "Sweden"),
        ("sgd", "Singapore"),
        ("thb", "Thailand"),
        ("try", "Turkey"),
        ("twd", "China Taiwan"),
        ("uah", "Ukraine"),
        ("usd", "United States"),
        ("vef", "Venezuela"),
        ("vnd", "Vietnam"),
        ("zar", "South Africa"),
    ];
    proof {
        reveal_strlit("aed");
        reveal_strlit("ars");
        reveal_strlit("aud");
        reveal_strlit("bdt");
        reveal_strlit("bhd");
        reveal_strlit("bmd");
        reveal_strlit("brl");
        reveal_strlit("cad");
        reveal_strlit("chf");
        reveal_strlit("clp");
        reveal_strlit("cny");
        reveal_strlit("czk");
        reveal_strlit("dkk");
        reveal_strlit("gbp");
        reveal_strlit("gel");
        reveal_strlit("hkd");
        reveal_strlit("huf");
        reveal_strlit("idr");
        reveal_strlit("ils");
        reveal_strlit("inr");
        reveal_strlit("jpy");
        reveal_strlit("krw");
        reveal_strlit("kwd");
        reveal_strlit("lkr");
        reveal_strlit("mmk");
        reveal_strlit("mxn");
        reveal_strlit("myr");
        reveal_strlit("ngn");
        reveal_strlit("nok");
        reveal_strlit("nzd");
        reveal_strlit("php");
        reveal_strlit("pkr");
        reveal_strlit("pln");
        reveal_strlit("rub");
        reveal_strlit("sar");
        reveal_strlit("sek");
        reveal_strlit("sgd");
        reveal_strlit("thb");
        reveal_strlit("try");
        reveal_strlit("twd");
        reveal_strlit("uah");
        reveal_strlit("usd");
        reveal_strlit("vef");
        reveal_strlit("vnd");
        reveal_strlit("zar");
    }
    let mut r: Vec<Country> = Vec::new();
    let mut i: usize = 0;
    while i < table.len()
        invariant
            table@.len() == spec_catalog().len(),
            forall|j: int|
                0 <= j < table@.len() ==> {
                    &&& (#[trigger] table@[j]).0@ == spec_catalog()[j].0
                    &&& table@[j].1@ == spec_catalog()[j].1
                    &&& table@[j].0@.len() == 3
                },
            r@.len() == i,
            i <= table@.len(),
            forall|j: int|
                0 <= j < i ==> {
                    &&& (#[trigger] r@[j]).wf()
                    &&& r@[j].currency@ == spec_catalog()[j].0
                    &&& r@[j].name@ == spec_catalog()[j].1
                },
        decreases table@.len() - i,
    {
        let (currency, name) = table[i];
        r.push(Country::new(currency, name));
        i = i + 1;
    }
    r
}

} // verus!
