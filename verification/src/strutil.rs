//! Small executable helpers for reasoning about strings at the
//! character-sequence level.

use vstd::prelude::*;
use vstd::string::StrSliceExecFns;

verus! {

/// Equality of two string slices, decided character by character.
pub fn str_eq(a: &str, b: &str) -> (r: bool)
    ensures
        r == (a@ == b@),
{
    let la = a.unicode_len();
    let lb = b.unicode_len();
    if la != lb {
        proof {
            assert(a@ != b@) by {
                if a@ == b@ {
                    assert(a@.len() == b@.len());
                }
            }
        }
        return false;
    }
    let mut i: usize = 0;
    while i < la
        invariant
            la == a@.len(),
            lb == b@.len(),
            la == lb,
            i <= la,
            forall|k: int| 0 <= k < i ==> a@[k] == b@[k],
        decreases la - i,
    {
        let ca = a.get_char(i);
        let cb = b.get_char(i);
        if ca != cb {
            proof {
                assert(a@ != b@) by {
                    if a@ == b@ {
                        assert(a@[i as int] == b@[i as int]);
                    }
                }
            }
            return false;
        }
        i += 1;
    }
    proof {
        assert(a@ =~= b@);
    }
    true
}

/// Equality of two owned strings, at the character level.
pub fn string_eq(a: &String, b: &String) -> (r: bool)
    ensures
        r == (a@ == b@),
{
    str_eq(a.as_str(), b.as_str())
}

/// Whether some string in `v` has the same characters as `s`.
pub fn vec_contains_str(v: &Vec<String>, s: &str) -> (r: bool)
    ensures
        r == v.deep_view().contains(s@),
{
    let mut i: usize = 0;
    while i < v.len()
        invariant
            i <= v@.len(),
            forall|k: int| 0 <= k < i ==> v.deep_view()[k] != s@,
        decreases v@.len() - i,
    {
        if str_eq(v[i].as_str(), s) {
            proof {
                assert(v.deep_view()[i as int] == s@);
            }
            return true;
        }
        i += 1;
    }
    proof {
        assert(!v.deep_view().contains(s@)) by {
            if v.deep_view().contains(s@) {
                let k = choose|k: int|
                    0 <= k < v.deep_view().len() && v.deep_view()[k] == s@;
                assert(v.deep_view()[k] != s@);
            }
        }
    }
    false
}

/// The one-character string for a lower-case ASCII letter or digit.
pub fn ascii_char_to_str(c: char) -> (r: &'static str)
    requires
        ('0' <= c && c <= '9') || ('a' <= c && c <= 'z'),
    ensures
        r@ == seq![c],
{
    match c {
        '0' => {
            proof {
                reveal_strlit("0");
                assert("0"@ =~= seq![c]);
            }
            "0"
        },
        '1' => {
            proof {
                reveal_strlit("1");
                assert("1"@ =~= seq![c]);
            }
            "1"
        },
        '2' => {
            proof {
                reveal_strlit("2");
                assert("2"@ =~= seq![c]);
            }
            "2"
        },
        '3' => {
            proof {
                reveal_strlit("3");
                assert("3"@ =~= seq![c]);
            }
            "3"
        },
        '4' => {
            proof {
                reveal_strlit("4");
                assert("4"@ =~= seq![c]);
            }
            "4"
        },
        '5' => {
            proof {
                reveal_strlit("5");
                assert("5"@ =~= seq![c]);
            }
            "5"
        },
        '6' => {
            proof {
                reveal_strlit("6");
                assert("6"@ =~= seq![c]);
            }
            "6"
        },
        '7' => {
            proof {
                reveal_strlit("7");
                assert("7"@ =~= seq![c]);
            }
            "7"
        },
        '8' => {
            proof {
                reveal_strlit("8");
                assert("8"@ =~= seq![c]);
            }
            "8"
        },
        '9' => {
            proof {
                reveal_strlit("9");
                assert("9"@ =~= seq![c]);
            }
            "9"
        },
        'a' => {
            proof {
                reveal_strlit("a");
                assert("a"@ =~= seq![c]);
            }
            "a"
        },
        'b' => {
            proof {
                reveal_strlit("b");
                assert("b"@ =~= seq![c]);
            }
            "b"
        },
        'c' => {
            proof {
                reveal_strlit("c");
                assert("c"@ =~= seq![c]);
            }
            "c"
        },
        'd' => {
            proof {
                reveal_strlit("d");
                assert("d"@ =~= seq![c]);
            }
            "d"
        },
        'e' => {
            proof {
                reveal_strlit("e");
                assert("e"@ =~= seq![c]);
            }
            "e"
        },
        'f' => {
            proof {
                reveal_strlit("f");
                assert("f"@ =~= seq![c]);
            }
            "f"
        },
        'g' => {
            proof {
                reveal_strlit("g");
                assert("g"@ =~= seq![c]);
            }
            "g"
        },
        'h' => {
            proof {
                reveal_strlit("h");
                assert("h"@ =~= seq![c]);
            }
            "h"
        },
        'i' => {
            proof {
                reveal_strlit("i");
                assert("i"@ =~= seq![c]);
            }
            "i"
        },
        'j' => {
            proof {
                reveal_strlit("j");
                assert("j"@ =~= seq![c]);
            }
            "j"
        },
        'k' => {
            proof {
                reveal_strlit("k");
                assert("k"@ =~= seq![c]);
            }
            "k"
        },
        'l' => {
            proof {
                reveal_strlit("l");
                assert("l"@ =~= seq![c]);
            }
            "l"
        },
        'm' => {
            proof {
                reveal_strlit("m");
                assert("m"@ =~= seq![c]);
            }
            "m"
        },
        'n' => {
            proof {
                reveal_strlit("n");
                assert("n"@ =~= seq![c]);
            }
            "n"
        },
        'o' => {
            proof {
                reveal_strlit("o");
                assert("o"@ =~= seq![c]);
            }
            "o"
        },
        'p' => {
            proof {
                reveal_strlit("p");
                assert("p"@ =~= seq![c]);
            }
            "p"
        },
        'q' => {
            proof {
                reveal_strlit("q");
                assert("q"@ =~= seq![c]);
            }
            "q"
        },
        'r' => {
            proof {
                reveal_strlit("r");
                assert("r"@ =~= seq![c]);
            }
            "r"
        },
        's' => {
            proof {
                reveal_strlit("s");
                assert("s"@ =~= seq![c]);
            }
            "s"
        },
        't' => {
            proof {
                reveal_strlit("t");
                assert("t"@ =~= seq![c]);
            }
            "t"
        },
        'u' => {
            proof {
                reveal_strlit("u");
                assert("u"@ =~= seq![c]);
            }
            "u"
        },
        'v' => {
            proof {
                reveal_strlit("v");
                assert("v"@ =~= seq![c]);
            }
            "v"
        },
        'w' => {
            proof {
                reveal_strlit("w");
                assert("w"@ =~= seq![c]);
            }
            "w"
        },
        'x' => {
            proof {
                reveal_strlit("x");
                assert("x"@ =~= seq![c]);
            }
            "x"
        },
        'y' => {
            proof {
                reveal_strlit("y");
                assert("y"@ =~= seq![c]);
            }
            "y"
        },
        'z' => {
            proof {
                reveal_strlit("z");
                assert("z"@ =~= seq![c]);
            }
            "z"
        },
        _ => {
            proof {
                assert(false);
            }
            ""
        },
    }
}

} // verus!

