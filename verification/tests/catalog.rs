use price_monitor::country::{get_countries, Country};

#[test]
fn catalog_has_fixed_size() {
    let countries = get_countries();
    assert_eq!(countries.len(), 45);
}

#[test]
fn catalog_first_and_reference_entries() {
    let countries = get_countries();
    assert_eq!(countries[0].currency, "aed");
    assert_eq!(countries[0].name, "United Arab Emirates");
    assert_eq!(countries[0].code, "ae");
    assert_eq!(
        countries[0].flag,
        "https://raw.githubusercontent.com/lipis/flag-icons/refs/heads/main/flags/4x3/ae.svg"
    );
    assert_eq!(countries[41].currency, "usd");
    assert_eq!(countries[41].name, "United States");
    assert_eq!(countries[44].currency, "zar");
}

#[test]
fn country_new_derives_code_and_flag() {
    let c = Country::new("usd", "United States");
    assert_eq!(c.currency, "usd");
    assert_eq!(c.name, "United States");
    assert_eq!(c.code, "us");
    assert_eq!(
        c.flag,
        "https://raw.githubusercontent.com/lipis/flag-icons/refs/heads/main/flags/4x3/us.svg"
    );
}
