use vstd::prelude::*;

use vstd::string::StrSliceExecFns;
use vstd::string::StringExecFns;

verus! {

/// The decimal digit character for `d` (only meaningful below ten).
pub open spec fn dec_digit(d: nat) -> char {
    if d == 0 {
        '0'
    } else if d == 1 {
        '1'
    } else if d == 2 {
        '2'
    } else if d == 3 {
        '3'
    } else if d == 4 {
        '4'
    } else if d == 5 {
        '5'
    } else if d == 6 {
        '6'
    } else if d == 7 {
        '7'
    } else if d == 8 {
        '8'
    } else {
        '9'
    }
}

/// The decimal digits of `n`, most significant first, with no leading zeros
/// (a single zero for `n == 0`).
pub open spec fn dec_chars(n: nat) -> Seq<char>
    decreases n,
{
    if n < 10 {
        seq![dec_digit(n)]
    } else {
        dec_chars(n / 10) + seq![dec_digit(n % 10)]
    }
}

fn dec_digit_str(d: u8) -> (s: &'static str)
    requires
        d < 10,
    ensures
        s@.len() == 1,
        s@[0] == dec_digit(d as nat),
{
    proof {
        reveal_strlit("0");
        reveal_strlit("1");
        reveal_strlit("2");
        reveal_strlit("3");
        reveal_strlit("4");
        reveal_strlit("5");
        reveal_strlit("6");
        reveal_strlit("7");
        reveal_strlit("8");
        reveal_strlit("9");
    }
    match d {
        0 => "0",
        1 => "1",
        2 => "2",
        3 => "3",
        4 => "4",
        5 => "5",
        6 => "6",
        7 => "7",
        8 => "8",
        _ => "9",
    }
}

/// Renders a level as its decimal numeral.
pub fn u8_to_dec(n: u8) -> (s: String)
    ensures
        s@ == dec_chars(n as nat),
    decreases n,
{
    if n < 10 {
        let s = dec_digit_str(n).to_owned();
        proof {
            assert(s@ =~= dec_chars(n as nat));
        }
        s
    } else {
        let mut s = u8_to_dec(n / 10);
        let d = dec_digit_str(n % 10);
        s.append(d);
        proof {
            assert(s@ =~= dec_chars(n as nat));
        }
        s
    }
}

/// The committed level vector rendered as decimal numerals joined by hyphens.
pub open spec fn levels_chars(levels: Seq<u8>) -> Seq<char>
    decreases levels.len(),
{
    if levels.len() == 0 {
        Seq::empty()
    } else if levels.len() == 1 {
        dec_chars(levels[0] as nat)
    } else {
        levels_chars(levels.drop_last()) + seq!['-'] + dec_chars(levels.last() as nat)
    }
}

/// The badge metadata URI for a committed level vector: the levels joined by
/// hyphens, placed under the organization's domain with a `.json` suffix.
pub open spec fn badge_uri(domain: Seq<char>, levels: Seq<u8>) -> Seq<char> {
    domain + seq!['/'] + levels_chars(levels) + seq!['.', 'j', 's', 'o', 'n']
}

fn levels_string(levels: &Vec<u8>) -> (s: String)
    ensures
        s@ == levels_chars(levels@),
{
    let mut s = String::new();
    let mut i: usize = 0;
    while i < levels.len()
        invariant
            i <= levels@.len(),
            s@ == levels_chars(levels@.take(i as int)),
        decreases levels@.len() - i,
    {
        if i > 0 {
            let h = "-";
            proof {
                reveal_strlit("-");
            }
            s.append(h);
        }
        let d = u8_to_dec(levels[i]);
        s.append(d.as_str());
        proof {
            assert(levels@.take(i + 1).drop_last() =~= levels@.take(i as int));
            assert(levels@.take(i + 1).last() == levels@[i as int]);
            if i == 0 {
                assert(s@ =~= levels_chars(levels@.take(1)));
            } else {
                assert(s@ =~= levels_chars(levels@.take(i + 1)));
            }
        }
        i += 1;
    }
    proof {
        assert(levels@.take(levels@.len() as int) =~= levels@);
    }
    s
}

/// Builds the badge metadata URI for a level vector under a domain.
pub fn levels_uri(domain: &str, levels: &Vec<u8>) -> (s: String)
    ensures
        s@ == badge_uri(domain@, levels@),
{
    let mut s = domain.to_owned();
    proof {
        reveal_strlit("/");
        reveal_strlit(".json");
    }
    s.append("/");
    let ls = levels_string(levels);
    s.append(ls.as_str());
    s.append(".json");
    proof {
        assert(s@ =~= badge_uri(domain@, levels@));
    }
    s
}

/// The organization's own metadata URI under its domain.
pub open spec fn org_uri_chars(domain: Seq<char>) -> Seq<char> {
    domain + seq!['/', 'o', 'r', 'g', '.', 'j', 's', 'o', 'n']
}

/// Builds the organization's metadata URI.
pub fn org_uri(domain: &str) -> (s: String)
    ensures
        s@ == org_uri_chars(domain@),
{
    let mut s = domain.to_owned();
    proof {
        reveal_strlit("/org.json");
    }
    s.append("/org.json");
    proof {
        assert(s@ =~= org_uri_chars(domain@));
    }
    s
}

/// The display name of the organization's own metadata record.
pub open spec fn org_metadata_name_chars(name: Seq<char>) -> Seq<char> {
    name + seq![' ', 'O', 'r', 'g', 'a', 'n', 'i', 'z', 'a', 't', 'i', 'o', 'n']
}

/// Builds the display name of the organization's metadata record.
pub fn org_metadata_name(name: &str) -> (s: String)
    ensures
        s@ == org_metadata_name_chars(name@),
{
    let mut s = name.to_owned();
    proof {
        reveal_strlit(" Organization");
    }
    s.append(" Organization");
    proof {
        assert(s@ =~= org_metadata_name_chars(name@));
    }
    s
}

/// The display name of an applicant's badge: the organization's name, a
/// hyphen, and the applicant's name.
pub open spec fn badge_metadata_name_chars(org_name: Seq<char>, applicant_name: Seq<char>) -> Seq<char> {
    org_name + seq![' ', '-', ' '] + applicant_name
}

/// Builds the display name of an applicant's badge.
pub fn badge_metadata_name(org_name: &str, applicant_name: &str) -> (s: String)
    ensures
        s@ == badge_metadata_name_chars(org_name@, applicant_name@),
{
    let mut s = org_name.to_owned();
    proof {
        reveal_strlit(" - ");
    }
    s.append(" - ");
    s.append(applicant_name);
    proof {
        assert(s@ =~= badge_metadata_name_chars(org_name@, applicant_name@));
    }
    s
}

} // verus!
