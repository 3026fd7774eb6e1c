use ledger::temperature::{celsius2farenheit, farenheit2celsius};

#[test]
fn lib_loop_from_celsius() {
    let same_celsius_value = -5;
    assert_eq!(
        farenheit2celsius(celsius2farenheit(same_celsius_value)),
        same_celsius_value
    );
}

#[test]
fn lib_loop_from_farenheit() {
    let same_fahrenheit_value = 212;
    assert_eq!(
        celsius2farenheit(farenheit2celsius(same_fahrenheit_value)),
        same_fahrenheit_value
    );
}

#[test]
fn kat() {
    // Known equivalent temperature pairs.
    let equivalences_fahrenheit_and_celsius = [(23, -5), (194, 90), (212, 100), (392, 200)];
    for equivalence in equivalences_fahrenheit_and_celsius {
        let actual_celsius = farenheit2celsius(equivalence.0);
        assert_eq!(
            equivalence.1, actual_celsius,
            "error: fahrenheit {} is not celsius {}. actual: {}",
            equivalence.0, equivalence.1, actual_celsius
        );

        let actual_fahrenheit = celsius2farenheit(equivalence.1);
        assert_eq!(
            equivalence.1, actual_celsius,
            "error: celsius {} is not fahrenheit {}. actual: {}",
            equivalence.1, equivalence.0, actual_fahrenheit
        );

        assert_eq!(
            celsius2farenheit(farenheit2celsius(equivalence.0)),
            equivalence.0
        );
        assert_eq!(
            farenheit2celsius(celsius2farenheit(equivalence.1)),
            equivalence.1
        );
    }
}

#[test]
fn truncation_rounds_toward_zero_for_either_sign() {
    // 1 * 9 / 5 truncates to 1, and -1 * 9 / 5 truncates to -1.
    assert_eq!(celsius2farenheit(1), 33);
    assert_eq!(celsius2farenheit(-1), 31);
    // 5 * (33 - 32) / 9 truncates to 0, and 5 * (31 - 32) / 9 to 0 as well.
    assert_eq!(farenheit2celsius(33), 0);
    assert_eq!(farenheit2celsius(31), 0);
}
