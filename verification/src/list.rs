//! Collections ("lists"): the filter descriptor, the employee-size wire
//! encoding, and the checkpointed progress counters with their commit record.

use vstd::prelude::*;

use crate::strutil::{
    find_sep, is_space_char, join_strings, lemma_split_first_absent, lemma_split_first_at,
    lemma_split_first_none, lemma_split_first_of_concat, lemma_split_first_rest_len, spec_join,
    spec_split_first, spec_trim, str_eq, trim,
};
use crate::CoreError;

verus! {

/// One closed employee-size range of the upstream filter vocabulary.
#[derive(Debug, Clone, Copy, PartialEq, Eq, Structural)]
pub enum SizeOptions {
    Under10,
    Under20,
    Under50,
    Under100,
    Under200,
    Under500,
    Under1000,
    Under2k,
    Under5k,
    Under10k,
    Above10k,
}

impl SizeOptions {
    /// The textual form of the range: with a hyphen for display and storage,
    /// with a comma in the wire form the upstream API expects.
    pub open spec fn spec_str(self, for_api: bool) -> Seq<char> {
        match self {
            SizeOptions::Under10 => if for_api { "1,10"@ } else { "1-10"@ },
            SizeOptions::Under20 => if for_api { "11,20"@ } else { "11-20"@ },
            SizeOptions::Under50 => if for_api { "21,50"@ } else { "21-50"@ },
            SizeOptions::Under100 => if for_api { "51,100"@ } else { "51-100"@ },
            SizeOptions::Under200 => if for_api { "101,200"@ } else { "101-200"@ },
            SizeOptions::Under500 => if for_api { "201,500"@ } else { "201-500"@ },
            SizeOptions::Under1000 => if for_api { "501,1000"@ } else { "501-1000"@ },
            SizeOptions::Under2k => if for_api { "1001,2000"@ } else { "1001-2000"@ },
            SizeOptions::Under5k => if for_api { "2001,5000"@ } else { "2001-5000"@ },
            SizeOptions::Under10k => if for_api { "5001,10000"@ } else { "5001-10000"@ },
            SizeOptions::Above10k => "10001+"@,
        }
    }

    pub fn to_str(&self, for_api: bool) -> (r: String)
        ensures
            r@ == self.spec_str(for_api),
    {
        if for_api {
            match self {
                SizeOptions::Under10 => "1,10".to_owned(),
                SizeOptions::Under20 => "11,20".to_owned(),
                SizeOptions::Under50 => "21,50".to_owned(),
                SizeOptions::Under100 => "51,100".to_owned(),
                SizeOptions::Under200 => "101,200".to_owned(),
                SizeOptions::Under500 => "201,500".to_owned(),
                SizeOptions::Under1000 => "501,1000".to_owned(),
                SizeOptions::Under2k => "1001,2000".to_owned(),
                SizeOptions::Under5k => "2001,5000".to_owned(),
                SizeOptions::Under10k => "5001,10000".to_owned(),
                SizeOptions::Above10k => "10001+".to_owned(),
            }
        } else {
            match self {
                SizeOptions::Under10 => "1-10".to_owned(),
                SizeOptions::Under20 => "11-20".to_owned(),
                SizeOptions::Under50 => "21-50".to_owned(),
                SizeOptions::Under100 => "51-100".to_owned(),
                SizeOptions::Under200 => "101-200".to_owned(),
                SizeOptions::Under500 => "201-500".to_owned(),
                SizeOptions::Under1000 => "501-1000".to_owned(),
                SizeOptions::Under2k => "1001-2000".to_owned(),
                SizeOptions::Under5k => "2001-5000".to_owned(),
                SizeOptions::Under10k => "5001-10000".to_owned(),
                SizeOptions::Above10k => "10001+".to_owned(),
            }
        }
    }

    /// Decoding of one range token, accepting either textual form; anything
    /// else is rejected.
    pub open spec fn spec_token_from(s: Seq<char>) -> Option<SizeOptions> {
        if s == "1-10"@ || s == "1,10"@ {
            Some(SizeOptions::Under10)
        } else if s == "11-20"@ || s == "11,20"@ {
            Some(SizeOptions::Under20)
        } else if s == "21-50"@ || s == "21,50"@ {
            Some(SizeOptions::Under50)
        } else if s == "51-100"@ || s == "51,100"@ {
            Some(SizeOptions::Under100)
        } else if s == "101-200"@ || s == "101,200"@ {
            Some(SizeOptions::Under200)
        } else if s == "201-500"@ || s == "201,500"@ {
            Some(SizeOptions::Under500)
        } else if s == "501-1000"@ || s == "501,1000"@ {
            Some(SizeOptions::Under1000)
        } else if s == "1001-2000"@ || s == "1001,2000"@ {
            Some(SizeOptions::Under2k)
        } else if s == "2001-5000"@ || s == "2001,5000"@ {
            Some(SizeOptions::Under5k)
        } else if s == "5001-10000"@ || s == "5001,10000"@ {
            Some(SizeOptions::Under10k)
        } else if s == "10001+"@ {
            Some(SizeOptions::Above10k)
        } else {
            None
        }
    }

    pub fn from_str(s: &str) -> (r: Option<SizeOptions>)
        ensures
            r == SizeOptions::spec_token_from(spec_trim(s@)),
    {
        let t = trim(s);
        if str_eq(t, "1-10") || str_eq(t, "1,10") {
            Some(SizeOptions::Under10)
        } else if str_eq(t, "11-20") || str_eq(t, "11,20") {
            Some(SizeOptions::Under20)
        } else if str_eq(t, "21-50") || str_eq(t, "21,50") {
            Some(SizeOptions::Under50)
        } else if str_eq(t, "51-100") || str_eq(t, "51,100") {
            Some(SizeOptions::Under100)
        } else if str_eq(t, "101-200") || str_eq(t, "101,200") {
            Some(SizeOptions::Under200)
        } else if str_eq(t, "201-500") || str_eq(t, "201,500") {
            Some(SizeOptions::Under500)
        } else if str_eq(t, "501-1000") || str_eq(t, "501,1000") {
            Some(SizeOptions::Under1000)
        } else if str_eq(t, "1001-2000") || str_eq(t, "1001,2000") {
            Some(SizeOptions::Under2k)
        } else if str_eq(t, "2001-5000") || str_eq(t, "2001,5000") {
            Some(SizeOptions::Under5k)
        } else if str_eq(t, "5001-10000") || str_eq(t, "5001,10000") {
            Some(SizeOptions::Under10k)
        } else if str_eq(t, "10001+") {
            Some(SizeOptions::Above10k)
        } else {
            None
        }
    }
}

/// The bidirectional wire-encoding table closes: every range token decodes
/// back to the range it encodes, in both textual forms.
pub proof fn lemma_size_token_round_trip(o: SizeOptions, for_api: bool)
    ensures
        SizeOptions::spec_token_from(o.spec_str(for_api)) == Some(o),
{
    reveal_strlit("1-10");
    reveal_strlit("1,10");
    reveal_strlit("11-20");
    reveal_strlit("11,20");
    reveal_strlit("21-50");
    reveal_strlit("21,50");
    reveal_strlit("51-100");
    reveal_strlit("51,100");
    reveal_strlit("101-200");
    reveal_strlit("101,200");
    reveal_strlit("201-500");
    reveal_strlit("201,500");
    reveal_strlit("501-1000");
    reveal_strlit("501,1000");
    reveal_strlit("1001-2000");
    reveal_strlit("1001,2000");
    reveal_strlit("2001-5000");
    reveal_strlit("2001,5000");
    reveal_strlit("5001-10000");
    reveal_strlit("5001,10000");
    reveal_strlit("10001+");
    assert("1-10"@.len() == 4);
    assert("1,10"@.len() == 4);
    assert("11-20"@.len() == 5);
    assert("11,20"@.len() == 5);
    assert("21-50"@.len() == 5);
    assert("21,50"@.len() == 5);
    assert("51-100"@.len() == 6);
    assert("51,100"@.len() == 6);
    assert("101-200"@.len() == 7);
    assert("101,200"@.len() == 7);
    assert("201-500"@.len() == 7);
    assert("201,500"@.len() == 7);
    assert("501-1000"@.len() == 8);
    assert("501,1000"@.len() == 8);
    assert("1001-2000"@.len() == 9);
    assert("1001,2000"@.len() == 9);
    assert("2001-5000"@.len() == 9);
    assert("2001,5000"@.len() == 9);
    assert("5001-10000"@.len() == 10);
    assert("5001,10000"@.len() == 10);
    assert("10001+"@.len() == 6);
    let s = o.spec_str(for_api);
    match o {
        SizeOptions::Under10 => {
            assert(s == "1-10"@ || s == "1,10"@);
            assert(SizeOptions::spec_token_from(s) == Some(SizeOptions::Under10));
        },
        SizeOptions::Under20 => {
            assert(s == "11-20"@ || s == "11,20"@);
            assert(s != "1-10"@);
            assert(s != "1,10"@);
            assert(SizeOptions::spec_token_from(s) == Some(SizeOptions::Under20));
        },
        SizeOptions::Under50 => {
            assert(s == "21-50"@ || s == "21,50"@);
            assert(s[0] == '2');
            assert(s != "1-10"@);
            assert(s != "1,10"@);
            assert("11-20"@[0] == '1');
            assert(s != "11-20"@);
            assert("11,20"@[0] == '1');
            assert(s != "11,20"@);
            assert(SizeOptions::spec_token_from(s) == Some(SizeOptions::Under50));
        },
        SizeOptions::Under100 => {
            assert(s == "51-100"@ || s == "51,100"@);
            assert(s != "1-10"@);
            assert(s != "1,10"@);
            assert(s != "11-20"@);
            assert(s != "11,20"@);
            assert(s != "21-50"@);
            assert(s != "21,50"@);
            assert(SizeOptions::spec_token_from(s) == Some(SizeOptions::Under100));
        },
        SizeOptions::Under200 => {
            assert(s == "101-200"@ || s == "101,200"@);
            assert(s != "1-10"@);
            assert(s != "1,10"@);
            assert(s != "11-20"@);
            assert(s != "11,20"@);
            assert(s != "21-50"@);
            assert(s != "21,50"@);
            assert(s != "51-100"@);
            assert(s != "51,100"@);
            assert(SizeOptions::spec_token_from(s) == Some(SizeOptions::Under200));
        },
        SizeOptions::Under500 => {
            assert(s == "201-500"@ || s == "201,500"@);
            assert(s[0] == '2');
            assert(s != "1-10"@);
            assert(s != "1,10"@);
            assert(s != "11-20"@);
            assert(s != "11,20"@);
            assert(s != "21-50"@);
            assert(s != "21,50"@);
            assert(s != "51-100"@);
            assert(s != "51,100"@);
            assert("101-200"@[0] == '1');
            assert(s != "101-200"@);
            assert("101,200"@[0] == '1');
            assert(s != "101,200"@);
            assert(SizeOptions::spec_token_from(s) == Some(SizeOptions::Under500));
        },
        SizeOptions::Under1000 => {
            assert(s == "501-1000"@ || s == "501,1000"@);
            assert(s != "1-10"@);
            assert(s != "1,10"@);
            assert(s != "11-20"@);
            assert(s != "11,20"@);
            assert(s != "21-50"@);
            assert(s != "21,50"@);
            assert(s != "51-100"@);
            assert(s != "51,100"@);
            assert(s != "101-200"@);
            assert(s != "101,200"@);
            assert(s != "201-500"@);
            assert(s != "201,500"@);
            assert(SizeOptions::spec_token_from(s) == Some(SizeOptions::Under1000));
        },
        SizeOptions::Under2k => {
            assert(s == "1001-2000"@ || s == "1001,2000"@);
            assert(s != "1-10"@);
            assert(s != "1,10"@);
            assert(s != "11-20"@);
            assert(s != "11,20"@);
            assert(s != "21-50"@);
            assert(s != "21,50"@);
            assert(s != "51-100"@);
            assert(s != "51,100"@);
            assert(s != "101-200"@);
            assert(s != "101,200"@);
            assert(s != "201-500"@);
            assert(s != "201,500"@);
            assert(s != "501-1000"@);
            assert(s != "501,1000"@);
            assert(SizeOptions::spec_token_from(s) == Some(SizeOptions::Under2k));
        },
        SizeOptions::Under5k => {
            assert(s == "2001-5000"@ || s == "2001,5000"@);
            assert(s[0] == '2');
            assert(s != "1-10"@);
            assert(s != "1,10"@);
            assert(s != "11-20"@);
            assert(s != "11,20"@);
            assert(s != "21-50"@);
            assert(s != "21,50"@);
            assert(s != "51-100"@);
            assert(s != "51,100"@);
            assert(s != "101-200"@);
            assert(s != "101,200"@);
            assert(s != "201-500"@);
            assert(s != "201,500"@);
            assert(s != "501-1000"@);
            assert(s != "501,1000"@);
            assert("1001-2000"@[0] == '1');
            assert(s != "1001-2000"@);
            assert("1001,2000"@[0] == '1');
            assert(s != "1001,2000"@);
            assert(SizeOptions::spec_token_from(s) == Some(SizeOptions::Under5k));
        },
        SizeOptions::Under10k => {
            assert(s == "5001-10000"@ || s == "5001,10000"@);
            assert(s != "1-10"@);
            assert(s != "1,10"@);
            assert(s != "11-20"@);
            assert(s != "11,20"@);
            assert(s != "21-50"@);
            assert(s != "21,50"@);
            assert(s != "51-100"@);
            assert(s != "51,100"@);
            assert(s != "101-200"@);
            assert(s != "101,200"@);
            assert(s != "201-500"@);
            assert(s != "201,500"@);
            assert(s != "501-1000"@);
            assert(s != "501,1000"@);
            assert(s != "1001-2000"@);
            assert(s != "1001,2000"@);
            assert(s != "2001-5000"@);
            assert(s != "2001,5000"@);
            assert(SizeOptions::spec_token_from(s) == Some(SizeOptions::Under10k));
        },
        SizeOptions::Above10k => {
            assert(s == "10001+"@);
            assert(s[0] == '1');
            assert(s != "1-10"@);
            assert(s != "1,10"@);
            assert(s != "11-20"@);
            assert(s != "11,20"@);
            assert(s != "21-50"@);
            assert(s != "21,50"@);
            assert("51-100"@[0] == '5');
            assert(s != "51-100"@);
            assert("51,100"@[0] == '5');
            assert(s != "51,100"@);
            assert(s != "101-200"@);
            assert(s != "101,200"@);
            assert(s != "201-500"@);
            assert(s != "201,500"@);
            assert(s != "501-1000"@);
            assert(s != "501,1000"@);
            assert(s != "1001-2000"@);
            assert(s != "1001,2000"@);
            assert(s != "2001-5000"@);
            assert(s != "2001,5000"@);
            assert(s != "5001-10000"@);
            assert(s != "5001,10000"@);
            assert(SizeOptions::spec_token_from(s) == Some(SizeOptions::Above10k));
        },
    }
}


/// Every range token is "clean" for the parse: at least one character long,
/// free of whitespace at its ends (so trimming leaves it alone), never
/// starting the separator of its own wire form, and never colliding with
/// the "unspecified" tag.
proof fn lemma_size_token_clean(o: SizeOptions, for_api: bool)
    ensures
        o.spec_str(for_api).len() >= 1,
        spec_trim(o.spec_str(for_api)) == o.spec_str(for_api),
        !crate::strutil::spec_has_char(o.spec_str(for_api), spec_size_sep(for_api)[0]),
        o.spec_str(for_api)[0] != 'u',
{
    reveal_strlit("1-10");
    reveal_strlit("1,10");
    reveal_strlit("11-20");
    reveal_strlit("11,20");
    reveal_strlit("21-50");
    reveal_strlit("21,50");
    reveal_strlit("51-100");
    reveal_strlit("51,100");
    reveal_strlit("101-200");
    reveal_strlit("101,200");
    reveal_strlit("501-1000");
    reveal_strlit("501,1000");
    reveal_strlit("201-500");
    reveal_strlit("201,500");
    reveal_strlit("1001-2000");
    reveal_strlit("1001,2000");
    reveal_strlit("2001-5000");
    reveal_strlit("2001,5000");
    reveal_strlit("5001-10000");
    reveal_strlit("5001,10000");
    reveal_strlit("10001+");
    reveal_strlit(";");
    reveal_strlit(", ");
    let s = o.spec_str(for_api);
    let sep0 = spec_size_sep(for_api)[0];
    match o {
        SizeOptions::Under10 => {
            if for_api {
                assert(s[0] == '1' && s[1] == ',' && s[2] == '1' && s[3] == '0');
            } else {
                assert(s[0] == '1' && s[1] == '-' && s[2] == '1' && s[3] == '0');
            }
        },
        SizeOptions::Under20 => {
            if for_api {
                assert(s[0] == '1' && s[1] == '1' && s[2] == ',' && s[3] == '2' && s[4] == '0');
            } else {
                assert(s[0] == '1' && s[1] == '1' && s[2] == '-' && s[3] == '2' && s[4] == '0');
            }
        },
        SizeOptions::Under50 => {
            if for_api {
                assert(s[0] == '2' && s[1] == '1' && s[2] == ',' && s[3] == '5' && s[4] == '0');
            } else {
                assert(s[0] == '2' && s[1] == '1' && s[2] == '-' && s[3] == '5' && s[4] == '0');
            }
        },
        SizeOptions::Under100 => {
            if for_api {
                assert(s[0] == '5' && s[1] == '1' && s[2] == ',' && s[3] == '1' && s[4] == '0' && s[5] == '0');
            } else {
                assert(s[0] == '5' && s[1] == '1' && s[2] == '-' && s[3] == '1' && s[4] == '0' && s[5] == '0');
            }
        },
        SizeOptions::Under200 => {
            if for_api {
                assert(s[0] == '1' && s[1] == '0' && s[2] == '1' && s[3] == ',' && s[4] == '2' && s[5] == '0' && s[6] == '0');
            } else {
                assert(s[0] == '1' && s[1] == '0' && s[2] == '1' && s[3] == '-' && s[4] == '2' && s[5] == '0' && s[6] == '0');
            }
        },
        SizeOptions::Under500 => {
            if for_api {
                assert(s[0] == '2' && s[1] == '0' && s[2] == '1' && s[3] == ',' && s[4] == '5' && s[5] == '0' && s[6] == '0');
            } else {
                assert(s[0] == '2' && s[1] == '0' && s[2] == '1' && s[3] == '-' && s[4] == '5' && s[5] == '0' && s[6] == '0');
            }
        },
        SizeOptions::Under1000 => {
            if for_api {
                assert(s[0] == '5' && s[1] == '0' && s[2] == '1' && s[3] == ',' && s[4] == '1' && s[5] == '0' && s[6] == '0' && s[7] == '0');
            } else {
                assert(s[0] == '5' && s[1] == '0' && s[2] == '1' && s[3] == '-' && s[4] == '1' && s[5] == '0' && s[6] == '0' && s[7] == '0');
            }
        },
        SizeOptions::Under2k => {
            if for_api {
                assert(s[0] == '1' && s[1] == '0' && s[2] == '0' && s[3] == '1' && s[4] == ',' && s[5] == '2' && s[6] == '0' && s[7] == '0' && s[8] == '0');
            } else {
                assert(s[0] == '1' && s[1] == '0' && s[2] == '0' && s[3] == '1' && s[4] == '-' && s[5] == '2' && s[6] == '0' && s[7] == '0' && s[8] == '0');
            }
        },
        SizeOptions::Under5k => {
            if for_api {
                assert(s[0] == '2' && s[1] == '0' && s[2] == '0' && s[3] == '1' && s[4] == ',' && s[5] == '5' && s[6] == '0' && s[7] == '0' && s[8] == '0');
            } else {
                assert(s[0] == '2' && s[1] == '0' && s[2] == '0' && s[3] == '1' && s[4] == '-' && s[5] == '5' && s[6] == '0' && s[7] == '0' && s[8] == '0');
            }
        },
        SizeOptions::Under10k => {
            if for_api {
                assert(s[0] == '5' && s[1] == '0' && s[2] == '0' && s[3] == '1' && s[4] == ',' && s[5] == '1' && s[6] == '0' && s[7] == '0' && s[8] == '0' && s[9] == '0');
            } else {
                assert(s[0] == '5' && s[1] == '0' && s[2] == '0' && s[3] == '1' && s[4] == '-' && s[5] == '1' && s[6] == '0' && s[7] == '0' && s[8] == '0' && s[9] == '0');
            }
        },
        SizeOptions::Above10k => {
            if for_api {
                assert(s[0] == '1' && s[1] == '0' && s[2] == '0' && s[3] == '0' && s[4] == '1' && s[5] == '+');
            } else {
                assert(s[0] == '1' && s[1] == '0' && s[2] == '0' && s[3] == '0' && s[4] == '1' && s[5] == '+');
            }
        },
    }
    assert(forall|i: int| 0 <= i < s.len() ==> s[i] != sep0);
    assert(!is_space_char(s[0]) && !is_space_char(s[s.len() - 1])) by {
        assert(s[0] != ' ' && s[0] != '\t' && s[0] != '\n' && s[0] != '\r');
    }
}

/// The employee-size part of a filter: either left open, or a non-empty set
/// of closed ranges.
#[derive(Debug)]
pub enum EmployeeSize {
    Unspecified,
    Specified(Vec<SizeOptions>),
}

/// The separator between ranges: a semicolon on the wire, a comma-space for
/// display and storage.
pub open spec fn spec_size_sep(for_api: bool) -> Seq<char> {
    if for_api {
        ";"@
    } else {
        ", "@
    }
}

impl EmployeeSize {
    /// A specified size names at least one range.
    pub open spec fn wf(self) -> bool {
        match self {
            EmployeeSize::Unspecified => true,
            EmployeeSize::Specified(v) => v.len() >= 1,
        }
    }

    /// The full textual form: the parameter is omitted upstream when the size
    /// is unspecified, so that case encodes only for display.
    pub open spec fn spec_encode(self, for_api: bool) -> Seq<char> {
        match self {
            EmployeeSize::Unspecified => "unspecified"@,
            EmployeeSize::Specified(v) => spec_join(
                v@.map_values(|o: SizeOptions| o.spec_str(for_api)),
                spec_size_sep(for_api),
            ),
        }
    }

    pub fn to_str(&self, for_api: bool) -> (r: String)
        ensures
            r@ == self.spec_encode(for_api),
    {
        match self {
            EmployeeSize::Unspecified => "unspecified".to_owned(),
            EmployeeSize::Specified(v) => {
                let ghost f = |o: SizeOptions| o.spec_str(for_api);
                let mut parts: Vec<String> = Vec::new();
                let mut i: usize = 0;
                while i < v.len()
                    invariant
                        i <= v.len(),
                        parts@.map_values(|p: String| p@) == v@.take(i as int).map_values(f),
                        f == (|o: SizeOptions| o.spec_str(for_api)),
                    decreases v.len() - i,
                {
                    parts.push(v[i].to_str(for_api));
                    proof {
                        assert(v@.take(i + 1).map_values(f) =~= v@.take(i as int).map_values(
                            f,
                        ).push(f(v@[i as int])));
                        assert(parts@.map_values(|p: String| p@) =~= v@.take(i + 1).map_values(f));
                    }
                    i += 1;
                }
                let sep = if for_api { ";" } else { ", " };
                proof {
                    assert(v@.take(v@.len() as int) =~= v@);
                }
                join_strings(&parts, sep)
            },
        }
    }
}

/// Decoding of a separated list of range tokens, token by token: every token
/// (trimmed) must decode, and one failed token rejects the whole list.
pub open spec fn spec_parse_size_list(s: Seq<char>, sep: Seq<char>) -> Option<Seq<SizeOptions>>
    decreases s.len(),
    when sep.len() >= 1
    via spec_parse_size_list_decreases
{
    let (tok, rest) = spec_split_first(s, sep);
    match SizeOptions::spec_token_from(spec_trim(tok)) {
        None => None,
        Some(o) => match rest {
            None => Some(seq![o]),
            Some(t) => match spec_parse_size_list(t, sep) {
                None => None,
                Some(others) => Some(seq![o] + others),
            },
        },
    }
}

#[via_fn]
proof fn spec_parse_size_list_decreases(s: Seq<char>, sep: Seq<char>) {
    lemma_split_first_rest_len(s, sep);
}

impl EmployeeSize {
    /// Decoding of the full textual form. "unspecified" stands alone; any
    /// other text is read as separated range tokens, and an unrecognized
    /// token rejects the whole value rather than being skipped or defaulted.
    pub fn from_str(text: &str, from_api: bool) -> (r: Option<EmployeeSize>)
        ensures
            text@ == "unspecified"@ ==> (r matches Some(e) && e == EmployeeSize::Unspecified),
            text@ != "unspecified"@ ==> match spec_parse_size_list(
                text@,
                spec_size_sep(from_api),
            ) {
                None => r is None,
                Some(os) => r matches Some(e) && e matches EmployeeSize::Specified(v) && v@ == os,
            },
    {
        if str_eq(text, "unspecified") {
            return Some(EmployeeSize::Unspecified);
        }
        let sep: &str = if from_api {
            ";"
        } else {
            ", "
        };
        proof {
            reveal_strlit(";");
            reveal_strlit(", ");
        }
        let ghost gsep = spec_size_sep(from_api);
        let ghost full = spec_parse_size_list(text@, gsep);
        let mut out: Vec<SizeOptions> = Vec::new();
        let mut cur: &str = text;
        loop
            invariant
                sep@ == gsep,
                gsep == spec_size_sep(from_api),
                1 <= gsep.len(),
                text@ != "unspecified"@,
                full == spec_parse_size_list(text@, gsep),
                full == match spec_parse_size_list(cur@, gsep) {
                    None => None::<Seq<SizeOptions>>,
                    Some(rest) => Some(out@ + rest),
                },
            decreases cur@.len(),
        {
            let curlen = cur.unicode_len();
            match find_sep(cur, sep) {
                None => {
                    proof {
                        lemma_split_first_none(cur@, gsep);
                    }
                    match SizeOptions::from_str(cur) {
                        None => {
                            return None;
                        },
                        Some(o) => {
                            out.push(o);
                            proof {
                                assert(out@ =~= out@.drop_last() + seq![o]);
                            }
                            return Some(EmployeeSize::Specified(out));
                        },
                    }
                },
                Some(i) => {
                    proof {
                        lemma_split_first_at(cur@, gsep, i as int);
                    }
                    let seplen = sep.unicode_len();
                    let tok = cur.substring_char(0, i);
                    proof {
                        assert(tok@ =~= cur@.take(i as int));
                    }
                    match SizeOptions::from_str(tok) {
                        None => {
                            return None;
                        },
                        Some(o) => {
                            let next = cur.substring_char(i + seplen, curlen);
                            proof {
                                assert(next@ =~= cur@.skip(i + gsep.len()));
                                match spec_parse_size_list(next@, gsep) {
                                    Some(others) => {
                                        assert(out@ + (seq![o] + others) =~= (out@ + seq![o])
                                            + others);
                                        assert(out@.push(o) =~= out@ + seq![o]);
                                    },
                                    None => {},
                                }
                            }
                            out.push(o);
                            cur = next;
                        },
                    }
                },
            }
        }
    }
}


/// The wire-encoding table closes at the list level too: decoding what a
/// non-empty set of ranges encodes gives back exactly those ranges, in both
/// textual forms — and the encoding can never collide with the standalone
/// "unspecified" tag.
pub proof fn lemma_sizes_encoding_round_trip(v: Seq<SizeOptions>, for_api: bool)
    requires
        v.len() >= 1,
    ensures
        spec_parse_size_list(
            spec_join(
                v.map_values(|o: SizeOptions| o.spec_str(for_api)),
                spec_size_sep(for_api),
            ),
            spec_size_sep(for_api),
        ) == Some(v),
        spec_join(
            v.map_values(|o: SizeOptions| o.spec_str(for_api)),
            spec_size_sep(for_api),
        ) != "unspecified"@,
    decreases v.len(),
{
    reveal_strlit(";");
    reveal_strlit(", ");
    reveal_strlit("unspecified");
    let sep = spec_size_sep(for_api);
    let parts = v.map_values(|o: SizeOptions| o.spec_str(for_api));
    let joined = spec_join(parts, sep);
    lemma_size_token_clean(v[0], for_api);
    if v.len() == 1 {
        assert(joined == parts[0]);
        lemma_split_first_absent(parts[0], sep);
        lemma_size_token_round_trip(v[0], for_api);
        assert(spec_parse_size_list(joined, sep) == Some(seq![v[0]]));
        assert(seq![v[0]] =~= v);
    } else {
        let tail = v.drop_first();
        let tail_parts = tail.map_values(|o: SizeOptions| o.spec_str(for_api));
        assert(parts.drop_first() =~= tail_parts);
        let tail_joined = spec_join(tail_parts, sep);
        assert(joined == parts[0] + sep + tail_joined);
        lemma_split_first_of_concat(parts[0], sep, tail_joined);
        lemma_size_token_round_trip(v[0], for_api);
        lemma_sizes_encoding_round_trip(tail, for_api);
        assert(spec_parse_size_list(joined, sep) == Some(seq![v[0]] + tail));
        assert(seq![v[0]] + tail =~= v);
    }
    assert(joined[0] == parts[0][0]);
    assert(joined[0] != 'u' && "unspecified"@[0] == 'u');
}

/// The immutable filter descriptor a collection was created with.
#[derive(Debug)]
pub struct ListFilter {
    pub id: u32,
    pub name: String,
    pub person_title: String,
    pub location: String,
    pub industry: String,
    pub keywords: Option<String>,
    pub employee_size: EmployeeSize,
}

/// A collection of fetched records with its progress counters and the
/// pagination cursor of the upstream source.
///
/// `next_pointer == None` means "no further pages" once `leads_fetched > 0`,
/// and "not yet started" before the first successful run.
#[derive(Debug)]
pub struct List {
    pub id: u32,
    pub name: String,
    pub leads_fetched: u32,
    pub emails_fetched: u32,
    pub filter: ListFilter,
    pub next_pointer: Option<String>,
}

/// What a commit does to the pagination cursor: leave it as it is, or set it
/// to the given token (or to "no further pages").
#[derive(Debug)]
pub enum CursorUpdate {
    Keep,
    Replace(Option<String>),
}

impl Clone for CursorUpdate {
    fn clone(&self) -> (r: Self)
        ensures
            r == *self,
    {
        match self {
            CursorUpdate::Keep => CursorUpdate::Keep,
            CursorUpdate::Replace(None) => CursorUpdate::Replace(None),
            CursorUpdate::Replace(Some(t)) => CursorUpdate::Replace(Some(t.clone())),
        }
    }
}

/// The cursor after a commit is applied to the current one.
pub open spec fn spec_cursor_apply(c: CursorUpdate, current: Option<String>) -> Option<String> {
    match c {
        CursorUpdate::Keep => current,
        CursorUpdate::Replace(v) => v,
    }
}

/// `v` if supplied, otherwise the current value `d`.
pub open spec fn spec_opt_or(v: Option<u32>, d: u32) -> u32 {
    match v {
        Some(x) => x,
        None => d,
    }
}

/// The durable record of one checkpoint: which collection it belongs to and
/// exactly the fields the commit changes. The surrounding application writes
/// it to storage after every unit of progress.
#[derive(Debug)]
pub struct ListCommit {
    pub list_id: u32,
    pub next_pointer: CursorUpdate,
    pub leads_fetched: Option<u32>,
    pub emails_fetched: Option<u32>,
}

impl crate::db::Tablular for List {
    fn headers() -> Vec<&'static str> {
        let mut v: Vec<&'static str> = Vec::new();
        v.push("name");
        v.push("leads fetched");
        v.push("emails fetched");
        v.push("person");
        v.push("location");
        v.push("industry");
        v.push("keywords");
        v.push("employee size");
        v
    }

    fn row(&self) -> Vec<String> {
        let mut v: Vec<String> = Vec::new();
        v.push(self.name.clone());
        v.push(crate::strutil::u32_to_string(self.leads_fetched));
        v.push(crate::strutil::u32_to_string(self.emails_fetched));
        v.push(self.filter.person_title.clone());
        v.push(self.filter.location.clone());
        v.push(self.filter.industry.clone());
        v.push(crate::strutil::opt_or_str(&self.filter.keywords, "none"));
        v.push(self.filter.employee_size.to_str(false));
        v
    }
}

impl List {
    /// A fresh collection: the filter set, both counters zero, no cursor —
    /// nothing fetched yet. Storage assigns the real ids on insert.
    pub fn new(
        name: String,
        person_title: String,
        location: String,
        industry: String,
        keywords: Option<String>,
        employee_size: EmployeeSize,
    ) -> (r: List)
        ensures
            r.wf(),
            r.leads_fetched == 0,
            r.emails_fetched == 0,
            r.next_pointer is None,
            r.name == name,
            r.filter.person_title == person_title,
            r.filter.location == location,
            r.filter.industry == industry,
            r.filter.keywords == keywords,
            r.filter.employee_size == employee_size,
            r.filter.name@ == name@ + "-filter"@,
    {
        let mut filter_name = name.clone();
        filter_name.append("-filter");
        List {
            id: 1,
            name,
            leads_fetched: 0,
            emails_fetched: 0,
            next_pointer: None,
            filter: ListFilter {
                id: 1,
                name: filter_name,
                person_title,
                location,
                industry,
                keywords,
                employee_size,
            },
        }
    }

    /// Verified records never outnumber fetched ones.
    pub open spec fn wf(self) -> bool {
        self.emails_fetched <= self.leads_fetched
    }

    /// Updates exactly the supplied fields of the progress state and hands
    /// back the matching commit record; asking for no change at all is
    /// refused. Name, id and filter never change.
    pub fn update_meta(
        &mut self,
        next_pointer: CursorUpdate,
        leads_fetched: Option<u32>,
        emails_fetched: Option<u32>,
    ) -> (r: Result<ListCommit, CoreError>)
        requires
            old(self).wf(),
            spec_opt_or(emails_fetched, old(self).emails_fetched) <= spec_opt_or(
                leads_fetched,
                old(self).leads_fetched,
            ),
        ensures
            final(self).wf(),
            (next_pointer is Keep && leads_fetched is None && emails_fetched is None) ==> {
                &&& r == Err::<ListCommit, CoreError>(CoreError::NoChanges)
                &&& *final(self) == *old(self)
            },
            !(next_pointer is Keep && leads_fetched is None && emails_fetched is None) ==> {
                &&& final(self).next_pointer == spec_cursor_apply(
                    next_pointer,
                    old(self).next_pointer,
                )
                &&& final(self).leads_fetched == spec_opt_or(
                    leads_fetched,
                    old(self).leads_fetched,
                )
                &&& final(self).emails_fetched == spec_opt_or(
                    emails_fetched,
                    old(self).emails_fetched,
                )
                &&& final(self).id == old(self).id
                &&& final(self).name == old(self).name
                &&& final(self).filter == old(self).filter
                &&& r matches Ok(c) && c == (ListCommit {
                    list_id: old(self).id,
                    next_pointer: next_pointer,
                    leads_fetched: leads_fetched,
                    emails_fetched: emails_fetched,
                })
            },
    {
        let keep = matches!(next_pointer, CursorUpdate::Keep);
        if keep && leads_fetched.is_none() && emails_fetched.is_none() {
            return Err(CoreError::NoChanges);
        }
        let commit = ListCommit {
            list_id: self.id,
            next_pointer: next_pointer.clone(),
            leads_fetched,
            emails_fetched,
        };
        match next_pointer {
            CursorUpdate::Keep => {},
            CursorUpdate::Replace(v) => {
                self.next_pointer = v;
            },
        }
        if let Some(x) = leads_fetched {
            self.leads_fetched = x;
        }
        if let Some(x) = emails_fetched {
            self.emails_fetched = x;
        }
        Ok(commit)
    }
}

} // verus!
