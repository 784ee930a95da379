//! Test registry: the fixed, case-sensitive table of test names and the
//! lookup from a name to the test it selects. An unknown name selects
//! nothing — distinguishable from any test's own skip outcome.

use vstd::prelude::*;
use vstd::string::StringSliceAdditionalSpecFns;
use vstd::utf8::encode_utf8_decode_utf8;

verus! {

/// Identifier of one statistical test of the battery.
#[derive(Clone, Copy, PartialEq, Eq, Structural, Debug)]
pub enum TestId {
    Avalanche,
    ChiBit,
    ChiByte,
    Compression,
    Gaps,
    Ks,
    MeanByte,
    Monobit,
    Pi,
    Prediction,
    Runs,
    RunUps,
    Shannon,
    Shells,
    Uncorrelation,
}

/// The test a name selects, by exact match against the registry; any
/// other name selects nothing.
pub open spec fn spec_test_id(name: Seq<char>) -> Option<TestId> {
    if name == "avalanche"@ {
        Some(TestId::Avalanche)
    } else if name == "chi_bit"@ {
        Some(TestId::ChiBit)
    } else if name == "chi_byte"@ {
        Some(TestId::ChiByte)
    } else if name == "compression"@ {
        Some(TestId::Compression)
    } else if name == "gaps"@ {
        Some(TestId::Gaps)
    } else if name == "ks"@ {
        Some(TestId::Ks)
    } else if name == "mean_byte"@ {
        Some(TestId::MeanByte)
    } else if name == "monobit"@ {
        Some(TestId::Monobit)
    } else if name == "pi"@ {
        Some(TestId::Pi)
    } else if name == "prediction"@ {
        Some(TestId::Prediction)
    } else if name == "runs"@ {
        Some(TestId::Runs)
    } else if name == "run_ups"@ {
        Some(TestId::RunUps)
    } else if name == "shannon"@ {
        Some(TestId::Shannon)
    } else if name == "shells"@ {
        Some(TestId::Shells)
    } else if name == "uncorrelation"@ {
        Some(TestId::Uncorrelation)
    } else {
        None
    }
}

/// String equality pinned to view equality: equal views encode to equal
/// bytes, and the UTF-8 encoding is injective.
fn str_eq(a: &str, b: &str) -> (r: bool)
    ensures
        r == (a@ == b@),
{
    let ab: &[u8] = a.as_bytes();
    let bb: &[u8] = b.as_bytes();
    let n: usize = ab.len();
    if n != bb.len() {
        proof {
            if a@ == b@ {
                assert(a.spec_bytes() == b.spec_bytes());
            }
        }
        return false;
    }
    let mut i: usize = 0;
    while i < n
        invariant
            i <= n,
            ab@.len() == n,
            bb@.len() == n,
            ab@ == a.spec_bytes(),
            bb@ == b.spec_bytes(),
            forall|j: int| 0 <= j < i ==> ab@[j] == bb@[j],
        decreases n - i,
    {
        if ab[i] != bb[i] {
            proof {
                if a@ == b@ {
                    assert(a.spec_bytes() == b.spec_bytes());
                }
            }
            return false;
        }
        i += 1;
    }
    proof {
        assert(a.spec_bytes() =~= b.spec_bytes());
        encode_utf8_decode_utf8(a@);
        encode_utf8_decode_utf8(b@);
    }
    true
}

/// Looks a test name up in the registry: the single entry point's
/// dispatch decision. An unknown name yields `None`, never a panic.
pub fn from_name(name: &str) -> (r: Option<TestId>)
    ensures
        r == spec_test_id(name@),
{
    if str_eq(name, "avalanche") {
        Some(TestId::Avalanche)
    } else if str_eq(name, "chi_bit") {
        Some(TestId::ChiBit)
    } else if str_eq(name, "chi_byte") {
        Some(TestId::ChiByte)
    } else if str_eq(name, "compression") {
        Some(TestId::Compression)
    } else if str_eq(name, "gaps") {
        Some(TestId::Gaps)
    } else if str_eq(name, "ks") {
        Some(TestId::Ks)
    } else if str_eq(name, "mean_byte") {
        Some(TestId::MeanByte)
    } else if str_eq(name, "monobit") {
        Some(TestId::Monobit)
    } else if str_eq(name, "pi") {
        Some(TestId::Pi)
    } else if str_eq(name, "prediction") {
        Some(TestId::Prediction)
    } else if str_eq(name, "runs") {
        Some(TestId::Runs)
    } else if str_eq(name, "run_ups") {
        Some(TestId::RunUps)
    } else if str_eq(name, "shannon") {
        Some(TestId::Shannon)
    } else if str_eq(name, "shells") {
        Some(TestId::Shells)
    } else if str_eq(name, "uncorrelation") {
        Some(TestId::Uncorrelation)
    } else {
        None
    }
}

proof fn lemma_registry_avalanche()
    ensures
        spec_test_id("avalanche"@) == Some(TestId::Avalanche),
{
    broadcast use vstd::string::group_string_axioms;

    reveal_strlit("avalanche");
    assert("avalanche"@.len() == 9);
}

proof fn lemma_registry_chi_bit()
    ensures
        spec_test_id("chi_bit"@) == Some(TestId::ChiBit),
{
    broadcast use vstd::string::group_string_axioms;

    reveal_strlit("avalanche");
    reveal_strlit("chi_bit");
    assert("chi_bit"@.len() == 7);
    assert("avalanche"@.len() == 9);
    assert("chi_bit"@ != "avalanche"@);
}

proof fn lemma_registry_chi_byte()
    ensures
        spec_test_id("chi_byte"@) == Some(TestId::ChiByte),
{
    broadcast use vstd::string::group_string_axioms;

    reveal_strlit("avalanche");
    reveal_strlit("chi_bit");
    reveal_strlit("chi_byte");
    assert("chi_byte"@.len() == 8);
    assert("avalanche"@.len() == 9);
    assert("chi_byte"@ != "avalanche"@);
    assert("chi_bit"@.len() == 7);
    assert("chi_byte"@ != "chi_bit"@);
}

proof fn lemma_registry_compression()
    ensures
        spec_test_id("compression"@) == Some(TestId::Compression),
{
    broadcast use vstd::string::group_string_axioms;

    reveal_strlit("avalanche");
    reveal_strlit("chi_bit");
    reveal_strlit("chi_byte");
    reveal_strlit("compression");
    assert("compression"@.len() == 11);
    assert("avalanche"@.len() == 9);
    assert("compression"@ != "avalanche"@);
    assert("chi_bit"@.len() == 7);
    assert("compression"@ != "chi_bit"@);
    assert("chi_byte"@.len() == 8);
    assert("compression"@ != "chi_byte"@);
}

proof fn lemma_registry_gaps()
    ensures
        spec_test_id("gaps"@) == Some(TestId::Gaps),
{
    broadcast use vstd::string::group_string_axioms;

    reveal_strlit("avalanche");
    reveal_strlit("chi_bit");
    reveal_strlit("chi_byte");
    reveal_strlit("compression");
    reveal_strlit("gaps");
    assert("gaps"@.len() == 4);
    assert("avalanche"@.len() == 9);
    assert("gaps"@ != "avalanche"@);
    assert("chi_bit"@.len() == 7);
    assert("gaps"@ != "chi_bit"@);
    assert("chi_byte"@.len() == 8);
    assert("gaps"@ != "chi_byte"@);
    assert("compression"@.len() == 11);
    assert("gaps"@ != "compression"@);
}

proof fn lemma_registry_ks()
    ensures
        spec_test_id("ks"@) == Some(TestId::Ks),
{
    broadcast use vstd::string::group_string_axioms;

    reveal_strlit("avalanche");
    reveal_strlit("chi_bit");
    reveal_strlit("chi_byte");
    reveal_strlit("compression");
    reveal_strlit("gaps");
    reveal_strlit("ks");
    assert("ks"@.len() == 2);
    assert("avalanche"@.len() == 9);
    assert("ks"@ != "avalanche"@);
    assert("chi_bit"@.len() == 7);
    assert("ks"@ != "chi_bit"@);
    assert("chi_byte"@.len() == 8);
    assert("ks"@ != "chi_byte"@);
    assert("compression"@.len() == 11);
    assert("ks"@ != "compression"@);
    assert("gaps"@.len() == 4);
    assert("ks"@ != "gaps"@);
}

proof fn lemma_registry_mean_byte()
    ensures
        spec_test_id("mean_byte"@) == Some(TestId::MeanByte),
{
    broadcast use vstd::string::group_string_axioms;

    reveal_strlit("avalanche");
    reveal_strlit("chi_bit");
    reveal_strlit("chi_byte");
    reveal_strlit("compression");
    reveal_strlit("gaps");
    reveal_strlit("ks");
    reveal_strlit("mean_byte");
    assert("mean_byte"@.len() == 9);
    assert("mean_byte"@[0] != "avalanche"@[0]);
    assert("mean_byte"@ != "avalanche"@);
    assert("chi_bit"@.len() == 7);
    assert("mean_byte"@ != "chi_bit"@);
    assert("chi_byte"@.len() == 8);
    assert("mean_byte"@ != "chi_byte"@);
    assert("compression"@.len() == 11);
    assert("mean_byte"@ != "compression"@);
    assert("gaps"@.len() == 4);
    assert("mean_byte"@ != "gaps"@);
    assert("ks"@.len() == 2);
    assert("mean_byte"@ != "ks"@);
}

proof fn lemma_registry_monobit()
    ensures
        spec_test_id("monobit"@) == Some(TestId::Monobit),
{
    broadcast use vstd::string::group_string_axioms;

    reveal_strlit("avalanche");
    reveal_strlit("chi_bit");
    reveal_strlit("chi_byte");
    reveal_strlit("compression");
    reveal_strlit("gaps");
    reveal_strlit("ks");
    reveal_strlit("mean_byte");
    reveal_strlit("monobit");
    assert("monobit"@.len() == 7);
    assert("avalanche"@.len() == 9);
    assert("monobit"@ != "avalanche"@);
    assert("monobit"@[0] != "chi_bit"@[0]);
    assert("monobit"@ != "chi_bit"@);
    assert("chi_byte"@.len() == 8);
    assert("monobit"@ != "chi_byte"@);
    assert("compression"@.len() == 11);
    assert("monobit"@ != "compression"@);
    assert("gaps"@.len() == 4);
    assert("monobit"@ != "gaps"@);
    assert("ks"@.len() == 2);
    assert("monobit"@ != "ks"@);
    assert("mean_byte"@.len() == 9);
    assert("monobit"@ != "mean_byte"@);
}

proof fn lemma_registry_pi()
    ensures
        spec_test_id("pi"@) == Some(TestId::Pi),
{
    broadcast use vstd::string::group_string_axioms;

    reveal_strlit("avalanche");
    reveal_strlit("chi_bit");
    reveal_strlit("chi_byte");
    reveal_strlit("compression");
    reveal_strlit("gaps");
    reveal_strlit("ks");
    reveal_strlit("mean_byte");
    reveal_strlit("monobit");
    reveal_strlit("pi");
    assert("pi"@.len() == 2);
    assert("avalanche"@.len() == 9);
    assert("pi"@ != "avalanche"@);
    assert("chi_bit"@.len() == 7);
    assert("pi"@ != "chi_bit"@);
    assert("chi_byte"@.len() == 8);
    assert("pi"@ != "chi_byte"@);
    assert("compression"@.len() == 11);
    assert("pi"@ != "compression"@);
    assert("gaps"@.len() == 4);
    assert("pi"@ != "gaps"@);
    assert("pi"@[0] != "ks"@[0]);
    assert("pi"@ != "ks"@);
    assert("mean_byte"@.len() == 9);
    assert("pi"@ != "mean_byte"@);
    assert("monobit"@.len() == 7);
    assert("pi"@ != "monobit"@);
}

proof fn lemma_registry_prediction()
    ensures
        spec_test_id("prediction"@) == Some(TestId::Prediction),
{
    broadcast use vstd::string::group_string_axioms;

    reveal_strlit("avalanche");
    reveal_strlit("chi_bit");
    reveal_strlit("chi_byte");
    reveal_strlit("compression");
    reveal_strlit("gaps");
    reveal_strlit("ks");
    reveal_strlit("mean_byte");
    reveal_strlit("monobit");
    reveal_strlit("pi");
    reveal_strlit("prediction");
    assert("prediction"@.len() == 10);
    assert("avalanche"@.len() == 9);
    assert("prediction"@ != "avalanche"@);
    assert("chi_bit"@.len() == 7);
    assert("prediction"@ != "chi_bit"@);
    assert("chi_byte"@.len() == 8);
    assert("prediction"@ != "chi_byte"@);
    assert("compression"@.len() == 11);
    assert("prediction"@ != "compression"@);
    assert("gaps"@.len() == 4);
    assert("prediction"@ != "gaps"@);
    assert("ks"@.len() == 2);
    assert("prediction"@ != "ks"@);
    assert("mean_byte"@.len() == 9);
    assert("prediction"@ != "mean_byte"@);
    assert("monobit"@.len() == 7);
    assert("prediction"@ != "monobit"@);
    assert("pi"@.len() == 2);
    assert("prediction"@ != "pi"@);
}

proof fn lemma_registry_runs()
    ensures
        spec_test_id("runs"@) == Some(TestId::Runs),
{
    broadcast use vstd::string::group_string_axioms;

    reveal_strlit("avalanche");
    reveal_strlit("chi_bit");
    reveal_strlit("chi_byte");
    reveal_strlit("compression");
    reveal_strlit("gaps");
    reveal_strlit("ks");
    reveal_strlit("mean_byte");
    reveal_strlit("monobit");
    reveal_strlit("pi");
    reveal_strlit("prediction");
    reveal_strlit("runs");
    assert("runs"@.len() == 4);
    assert("avalanche"@.len() == 9);
    assert("runs"@ != "avalanche"@);
    assert("chi_bit"@.len() == 7);
    assert("runs"@ != "chi_bit"@);
    assert("chi_byte"@.len() == 8);
    assert("runs"@ != "chi_byte"@);
    assert("compression"@.len() == 11);
    assert("runs"@ != "compression"@);
    assert("runs"@[0] != "gaps"@[0]);
    assert("runs"@ != "gaps"@);
    assert("ks"@.len() == 2);
    assert("runs"@ != "ks"@);
    assert("mean_byte"@.len() == 9);
    assert("runs"@ != "mean_byte"@);
    assert("monobit"@.len() == 7);
    assert("runs"@ != "monobit"@);
    assert("pi"@.len() == 2);
    assert("runs"@ != "pi"@);
    assert("prediction"@.len() == 10);
    assert("runs"@ != "prediction"@);
}

proof fn lemma_registry_run_ups()
    ensures
        spec_test_id("run_ups"@) == Some(TestId::RunUps),
{
    broadcast use vstd::string::group_string_axioms;

    reveal_strlit("avalanche");
    reveal_strlit("chi_bit");
    reveal_strlit("chi_byte");
    reveal_strlit("compression");
    reveal_strlit("gaps");
    reveal_strlit("ks");
    reveal_strlit("mean_byte");
    reveal_strlit("monobit");
    reveal_strlit("pi");
    reveal_strlit("prediction");
    reveal_strlit("runs");
    reveal_strlit("run_ups");
    assert("run_ups"@.len() == 7);
    assert("avalanche"@.len() == 9);
    assert("run_ups"@ != "avalanche"@);
    assert("run_ups"@[0] != "chi_bit"@[0]);
    assert("run_ups"@ != "chi_bit"@);
    assert("chi_byte"@.len() == 8);
    assert("run_ups"@ != "chi_byte"@);
    assert("compression"@.len() == 11);
    assert("run_ups"@ != "compression"@);
    assert("gaps"@.len() == 4);
    assert("run_ups"@ != "gaps"@);
    assert("ks"@.len() == 2);
    assert("run_ups"@ != "ks"@);
    assert("mean_byte"@.len() == 9);
    assert("run_ups"@ != "mean_byte"@);
    assert("run_ups"@[0] != "monobit"@[0]);
    assert("run_ups"@ != "monobit"@);
    assert("pi"@.len() == 2);
    assert("run_ups"@ != "pi"@);
    assert("prediction"@.len() == 10);
    assert("run_ups"@ != "prediction"@);
    assert("runs"@.len() == 4);
    assert("run_ups"@ != "runs"@);
}

proof fn lemma_registry_shannon()
    ensures
        spec_test_id("shannon"@) == Some(TestId::Shannon),
{
    broadcast use vstd::string::group_string_axioms;

    reveal_strlit("avalanche");
    reveal_strlit("chi_bit");
    reveal_strlit("chi_byte");
    reveal_strlit("compression");
    reveal_strlit("gaps");
    reveal_strlit("ks");
    reveal_strlit("mean_byte");
    reveal_strlit("monobit");
    reveal_strlit("pi");
    reveal_strlit("prediction");
    reveal_strlit("runs");
    reveal_strlit("run_ups");
    reveal_strlit("shannon");
    assert("shannon"@.len() == 7);
    assert("avalanche"@.len() == 9);
    assert("shannon"@ != "avalanche"@);
    assert("shannon"@[0] != "chi_bit"@[0]);
    assert("shannon"@ != "chi_bit"@);
    assert("chi_byte"@.len() == 8);
    assert("shannon"@ != "chi_byte"@);
    assert("compression"@.len() == 11);
    assert("shannon"@ != "compression"@);
    assert("gaps"@.len() == 4);
    assert("shannon"@ != "gaps"@);
    assert("ks"@.len() == 2);
    assert("shannon"@ != "ks"@);
    assert("mean_byte"@.len() == 9);
    assert("shannon"@ != "mean_byte"@);
    assert("shannon"@[0] != "monobit"@[0]);
    assert("shannon"@ != "monobit"@);
    assert("pi"@.len() == 2);
    assert("shannon"@ != "pi"@);
    assert("prediction"@.len() == 10);
    assert("shannon"@ != "prediction"@);
    assert("runs"@.len() == 4);
    assert("shannon"@ != "runs"@);
    assert("shannon"@[0] != "run_ups"@[0]);
    assert("shannon"@ != "run_ups"@);
}

proof fn lemma_registry_shells()
    ensures
        spec_test_id("shells"@) == Some(TestId::Shells),
{
    broadcast use vstd::string::group_string_axioms;

    reveal_strlit("avalanche");
    reveal_strlit("chi_bit");
    reveal_strlit("chi_byte");
    reveal_strlit("compression");
    reveal_strlit("gaps");
    reveal_strlit("ks");
    reveal_strlit("mean_byte");
    reveal_strlit("monobit");
    reveal_strlit("pi");
    reveal_strlit("prediction");
    reveal_strlit("runs");
    reveal_strlit("run_ups");
    reveal_strlit("shannon");
    reveal_strlit("shells");
    assert("shells"@.len() == 6);
    assert("avalanche"@.len() == 9);
    assert("shells"@ != "avalanche"@);
    assert("chi_bit"@.len() == 7);
    assert("shells"@ != "chi_bit"@);
    assert("chi_byte"@.len() == 8);
    assert("shells"@ != "chi_byte"@);
    assert("compression"@.len() == 11);
    assert("shells"@ != "compression"@);
    assert("gaps"@.len() == 4);
    assert("shells"@ != "gaps"@);
    assert("ks"@.len() == 2);
    assert("shells"@ != "ks"@);
    assert("mean_byte"@.len() == 9);
    assert("shells"@ != "mean_byte"@);
    assert("monobit"@.len() == 7);
    assert("shells"@ != "monobit"@);
    assert("pi"@.len() == 2);
    assert("shells"@ != "pi"@);
    assert("prediction"@.len() == 10);
    assert("shells"@ != "prediction"@);
    assert("runs"@.len() == 4);
    assert("shells"@ != "runs"@);
    assert("run_ups"@.len() == 7);
    assert("shells"@ != "run_ups"@);
    assert("shannon"@.len() == 7);
    assert("shells"@ != "shannon"@);
}

proof fn lemma_registry_uncorrelation()
    ensures
        spec_test_id("uncorrelation"@) == Some(TestId::Uncorrelation),
{
    broadcast use vstd::string::group_string_axioms;

    reveal_strlit("avalanche");
    reveal_strlit("chi_bit");
    reveal_strlit("chi_byte");
    reveal_strlit("compression");
    reveal_strlit("gaps");
    reveal_strlit("ks");
    reveal_strlit("mean_byte");
    reveal_strlit("monobit");
    reveal_strlit("pi");
    reveal_strlit("prediction");
    reveal_strlit("runs");
    reveal_strlit("run_ups");
    reveal_strlit("shannon");
    reveal_strlit("shells");
    reveal_strlit("uncorrelation");
    assert("uncorrelation"@.len() == 13);
    assert("avalanche"@.len() == 9);
    assert("uncorrelation"@ != "avalanche"@);
    assert("chi_bit"@.len() == 7);
    assert("uncorrelation"@ != "chi_bit"@);
    assert("chi_byte"@.len() == 8);
    assert("uncorrelation"@ != "chi_byte"@);
    assert("compression"@.len() == 11);
    assert("uncorrelation"@ != "compression"@);
    assert("gaps"@.len() == 4);
    assert("uncorrelation"@ != "gaps"@);
    assert("ks"@.len() == 2);
    assert("uncorrelation"@ != "ks"@);
    assert("mean_byte"@.len() == 9);
    assert("uncorrelation"@ != "mean_byte"@);
    assert("monobit"@.len() == 7);
    assert("uncorrelation"@ != "monobit"@);
    assert("pi"@.len() == 2);
    assert("uncorrelation"@ != "pi"@);
    assert("prediction"@.len() == 10);
    assert("uncorrelation"@ != "prediction"@);
    assert("runs"@.len() == 4);
    assert("uncorrelation"@ != "runs"@);
    assert("run_ups"@.len() == 7);
    assert("uncorrelation"@ != "run_ups"@);
    assert("shannon"@.len() == 7);
    assert("uncorrelation"@ != "shannon"@);
    assert("shells"@.len() == 6);
    assert("uncorrelation"@ != "shells"@);
}

/// The registered name of a test: the inverse direction of the registry.
/// Looking the returned name up selects the same test again.
pub fn name_of(id: TestId) -> (r: &'static str)
    ensures
        spec_test_id(r@) == Some(id),
{
    match id {
        TestId::Avalanche => {
            proof {
                lemma_registry_avalanche();
            }
            "avalanche"
        },
        TestId::ChiBit => {
            proof {
                lemma_registry_chi_bit();
            }
            "chi_bit"
        },
        TestId::ChiByte => {
            proof {
                lemma_registry_chi_byte();
            }
            "chi_byte"
        },
        TestId::Compression => {
            proof {
                lemma_registry_compression();
            }
            "compression"
        },
        TestId::Gaps => {
            proof {
                lemma_registry_gaps();
            }
            "gaps"
        },
        TestId::Ks => {
            proof {
                lemma_registry_ks();
            }
            "ks"
        },
        TestId::MeanByte => {
            proof {
                lemma_registry_mean_byte();
            }
            "mean_byte"
        },
        TestId::Monobit => {
            proof {
                lemma_registry_monobit();
            }
            "monobit"
        },
        TestId::Pi => {
            proof {
                lemma_registry_pi();
            }
            "pi"
        },
        TestId::Prediction => {
            proof {
                lemma_registry_prediction();
            }
            "prediction"
        },
        TestId::Runs => {
            proof {
                lemma_registry_runs();
            }
            "runs"
        },
        TestId::RunUps => {
            proof {
                lemma_registry_run_ups();
            }
            "run_ups"
        },
        TestId::Shannon => {
            proof {
                lemma_registry_shannon();
            }
            "shannon"
        },
        TestId::Shells => {
            proof {
                lemma_registry_shells();
            }
            "shells"
        },
        TestId::Uncorrelation => {
            proof {
                lemma_registry_uncorrelation();
            }
            "uncorrelation"
        },
    }
}

} // verus!
