use onod3000::dispatch::{from_name, name_of, TestId};

#[test]
fn known_names_resolve() {
    assert_eq!(from_name("avalanche"), Some(TestId::Avalanche));
    assert_eq!(from_name("chi_bit"), Some(TestId::ChiBit));
    assert_eq!(from_name("chi_byte"), Some(TestId::ChiByte));
    assert_eq!(from_name("compression"), Some(TestId::Compression));
    assert_eq!(from_name("gaps"), Some(TestId::Gaps));
    assert_eq!(from_name("ks"), Some(TestId::Ks));
    assert_eq!(from_name("mean_byte"), Some(TestId::MeanByte));
    assert_eq!(from_name("monobit"), Some(TestId::Monobit));
    assert_eq!(from_name("pi"), Some(TestId::Pi));
    assert_eq!(from_name("prediction"), Some(TestId::Prediction));
    assert_eq!(from_name("runs"), Some(TestId::Runs));
    assert_eq!(from_name("run_ups"), Some(TestId::RunUps));
    assert_eq!(from_name("shannon"), Some(TestId::Shannon));
    assert_eq!(from_name("shells"), Some(TestId::Shells));
    assert_eq!(from_name("uncorrelation"), Some(TestId::Uncorrelation));
}

#[test]
fn unknown_name_selects_nothing() {
    assert_eq!(from_name("bogus"), None);
    assert_eq!(from_name(""), None);
    assert_eq!(from_name("Monobit"), None);
    assert_eq!(from_name("monobit "), None);
}

#[test]
fn names_round_trip() {
    let all = [
        TestId::Avalanche,
        TestId::ChiBit,
        TestId::ChiByte,
        TestId::Compression,
        TestId::Gaps,
        TestId::Ks,
        TestId::MeanByte,
        TestId::Monobit,
        TestId::Pi,
        TestId::Prediction,
        TestId::Runs,
        TestId::RunUps,
        TestId::Shannon,
        TestId::Shells,
        TestId::Uncorrelation,
    ];
    for id in all.iter() {
        assert_eq!(from_name(name_of(*id)), Some(*id));
    }
}
