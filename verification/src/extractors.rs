//! Friendly messages for malformed request bodies: reads the field name
//! out of a decoder's error text and classifies the failure.  The process
//! boundary hands this module the error text; everything here is plain
//! string work.

use vstd::prelude::*;

use crate::query::contains_sub;
use crate::query::spec_contains_sub;
use crate::text::push_char;

verus! {

/// A character allowed inside a reported field name.
pub open spec fn spec_field_char(c: char) -> bool {
    ('a' <= c && c <= 'z') || ('A' <= c && c <= 'Z') || ('0' <= c && c <= '9') || c == '_'
}

/// The text between the first two occurrences of the delimiter, when both
/// exist, it is non-empty, and it holds only field-name characters.
pub open spec fn spec_delimited_name(s: Seq<char>, d: char, i: int, j: int) -> bool {
    &&& 0 <= i < j < s.len()
    &&& s[i] == d
    &&& s[j] == d
    &&& forall|k: int| 0 <= k < i ==> s[k] != d
    &&& forall|k: int| i < k < j ==> s[k] != d
    &&& j > i + 1
    &&& forall|k: int| i < k < j ==> spec_field_char(#[trigger] s[k])
}

/// A field name can be read between delimiters `d`.
pub open spec fn spec_has_delimited_name(s: Seq<char>, d: char) -> bool {
    exists|i: int, j: int| spec_delimited_name(s, d, i, j)
}

/// Scans for the first two occurrences of `d` and returns the text
/// between them when it forms a field name.
fn delimited_name(s: &str, d: char) -> (r: Option<String>)
    ensures
        match r {
            Some(name) => exists|i: int, j: int|
                #[trigger] spec_delimited_name(s@, d, i, j) && name@ == s@.subrange(i + 1, j),
            None => !spec_has_delimited_name(s@, d),
        },
{
    let n = s.unicode_len();
    let mut i: usize = 0;
    while i < n && s.get_char(i) != d
        invariant
            n == s@.len(),
            i <= n,
            forall|k: int| 0 <= k < i ==> s@[k] != d,
        decreases n - i,
    {
        i = i + 1;
    }
    if i >= n {
        proof {
            assert forall|p: int, q: int| !(#[trigger] spec_delimited_name(s@, d, p, q)) by {
                if spec_delimited_name(s@, d, p, q) {
                    assert(s@[p] == d);
                }
            }
        }
        return None;
    }
    let mut j: usize = i + 1;
    let mut ok: bool = true;
    while j < n && s.get_char(j) != d
        invariant
            n == s@.len(),
            i < j <= n,
            s@[i as int] == d,
            forall|k: int| 0 <= k < i ==> s@[k] != d,
            forall|k: int| i < k < j ==> s@[k] != d,
            ok == forall|k: int| i < k < j ==> spec_field_char(#[trigger] s@[k]),
        decreases n - j,
    {
        let c = s.get_char(j);
        let good = ('a' <= c && c <= 'z') || ('A' <= c && c <= 'Z') || ('0' <= c && c <= '9') || c
            == '_';
        if !good {
            ok = false;
        }
        j = j + 1;
    }
    if j >= n || j == i + 1 || !ok {
        proof {
            assert forall|p: int, q: int| !(#[trigger] spec_delimited_name(s@, d, p, q)) by {
                if spec_delimited_name(s@, d, p, q) {
                    assert(p == i) by {
                        if p < i {
                            assert(s@[p] == d);
                        }
                        if i < p {
                            assert(s@[i as int] != d);
                        }
                    }
                    assert(q == j) by {
                        if q < j {
                            assert(s@[q] != d);
                        }
                        if j < q && j < n {
                            assert(s@[j as int] != d);
                        }
                    }
                }
            }
        }
        return None;
    }
    let mut out = String::new();
    let mut k: usize = i + 1;
    while k < j
        invariant
            n == s@.len(),
            i < k <= j < n,
            out@ == s@.subrange(i + 1, k as int),
        decreases j - k,
    {
        push_char(&mut out, s.get_char(k));
        proof {
            assert(s@.subrange(i + 1, k + 1) =~= s@.subrange(i + 1, k as int).push(s@[k as int]));
        }
        k = k + 1;
    }
    proof {
        assert(spec_delimited_name(s@, d, i as int, j as int));
    }
    Some(out)
}

/// Reads a field name out of a decoder's error text: the text between
/// the first pair of backticks, or else the first pair of double quotes,
/// when it is a non-empty run of letters, digits and underscores.
pub fn extract_field_name(error_str: &str) -> (r: Option<String>)
    ensures
        r is None ==> !spec_has_delimited_name(error_str@, '`') && !spec_has_delimited_name(
            error_str@,
            '"',
        ),
        r matches Some(name) ==> (exists|i: int, j: int|
            #[trigger] spec_delimited_name(error_str@, '`', i, j) && name@ == error_str@.subrange(
                i + 1,
                j,
            )) || (!spec_has_delimited_name(error_str@, '`') && exists|i: int, j: int|
            #[trigger] spec_delimited_name(error_str@, '"', i, j) && name@ == error_str@.subrange(
                i + 1,
                j,
            )),
{
    match delimited_name(error_str, '`') {
        Some(name) => Some(name),
        None => delimited_name(error_str, '"'),
    }
}

/// Turns a JSON decoder's error text into the message shown to the
/// caller: names the missing or invalid field when the text identifies
/// one, else falls back to the raw text.
pub fn parse_serde_error(error_str: &str) -> (r: String)
    ensures
        spec_contains_sub(error_str@, "missing field"@) ==> r@ == (if spec_names_a_field(
            error_str@,
        ) {
            "Missing required field: "@ + spec_extracted(error_str@)
        } else {
            "Missing required field in request"@
        }),
        !spec_contains_sub(error_str@, "missing field"@) && spec_contains_sub(
            error_str@,
            "invalid type"@,
        ) ==> r@ == (if spec_names_a_field(error_str@) {
            "Invalid data type for field: "@ + spec_extracted(error_str@)
        } else {
            "Invalid data type in request"@
        }),
        !spec_contains_sub(error_str@, "missing field"@) && !spec_contains_sub(
            error_str@,
            "invalid type"@,
        ) && spec_contains_sub(error_str@, "invalid value"@) ==> r@ == (if spec_names_a_field(
            error_str@,
        ) {
            "Invalid value for field: "@ + spec_extracted(error_str@)
        } else {
            "Invalid value in request"@
        }),
        !spec_contains_sub(error_str@, "missing field"@) && !spec_contains_sub(
            error_str@,
            "invalid type"@,
        ) && !spec_contains_sub(error_str@, "invalid value"@) ==> r@ == (if spec_names_a_field(
            error_str@,
        ) {
            "Invalid data for field: "@ + spec_extracted(error_str@)
        } else {
            error_str@
        }),
{
    proof {
        reveal_strlit("missing field");
        reveal_strlit("invalid type");
        reveal_strlit("invalid value");
    }
    let named = extract_field_name(error_str);
    if contains_sub(error_str, "missing field") {
        return match named {
            Some(name) => {
                let mut m = String::from_str("Missing required field: ");
                m.append(name.as_str());
                proof {
                    lemma_name_extracted(error_str@, name@);
                }
                m
            },
            None => String::from_str("Missing required field in request"),
        };
    }
    if contains_sub(error_str, "invalid type") {
        return match named {
            Some(name) => {
                let mut m = String::from_str("Invalid data type for field: ");
                m.append(name.as_str());
                proof {
                    lemma_name_extracted(error_str@, name@);
                }
                m
            },
            None => String::from_str("Invalid data type in request"),
        };
    }
    if contains_sub(error_str, "invalid value") {
        return match named {
            Some(name) => {
                let mut m = String::from_str("Invalid value for field: ");
                m.append(name.as_str());
                proof {
                    lemma_name_extracted(error_str@, name@);
                }
                m
            },
            None => String::from_str("Invalid value in request"),
        };
    }
    match named {
        Some(name) => {
            let mut m = String::from_str("Invalid data for field: ");
            m.append(name.as_str());
            proof {
                lemma_name_extracted(error_str@, name@);
            }
            m
        },
        None => String::from_str(error_str),
    }
}

/// Some delimited field name can be read out of the text.
pub open spec fn spec_names_a_field(s: Seq<char>) -> bool {
    spec_has_delimited_name(s, '`') || spec_has_delimited_name(s, '"')
}

/// The name `extract_field_name` reads out of the text, where one exists.
pub open spec fn spec_extracted(s: Seq<char>) -> Seq<char> {
    if spec_has_delimited_name(s, '`') {
        let (i, j) = choose|i: int, j: int| spec_delimited_name(s, '`', i, j);
        s.subrange(i + 1, j)
    } else if spec_has_delimited_name(s, '"') {
        let (i, j) = choose|i: int, j: int| spec_delimited_name(s, '"', i, j);
        s.subrange(i + 1, j)
    } else {
        Seq::empty()
    }
}

/// The delimiter positions of a name are unique, so any extracted name is
/// the extracted name.
proof fn lemma_name_extracted(s: Seq<char>, name: Seq<char>)
    requires
        (exists|i: int, j: int| #[trigger] spec_delimited_name(s, '`', i, j) && name == s.subrange(
            i + 1,
            j,
        )) || (!spec_has_delimited_name(s, '`') && exists|i: int, j: int|
            #[trigger] spec_delimited_name(s, '"', i, j) && name == s.subrange(i + 1, j)),
    ensures
        name == spec_extracted(s),
{
    if exists|i: int, j: int| #[trigger] spec_delimited_name(s, '`', i, j) && name == s.subrange(
        i + 1,
        j,
    ) {
        let (i, j) = choose|i: int, j: int|
            #[trigger] spec_delimited_name(s, '`', i, j) && name == s.subrange(i + 1, j);
        let (x, y) = choose|x: int, y: int| spec_delimited_name(s, '`', x, y);
        lemma_delimited_unique(s, '`', i, j, x, y);
    } else {
        let (i, j) = choose|i: int, j: int|
            #[trigger] spec_delimited_name(s, '"', i, j) && name == s.subrange(i + 1, j);
        let (x, y) = choose|x: int, y: int| spec_delimited_name(s, '"', x, y);
        lemma_delimited_unique(s, '"', i, j, x, y);
    }
}

/// Two readings of the delimited name agree.
proof fn lemma_delimited_unique(s: Seq<char>, d: char, i: int, j: int, x: int, y: int)
    requires
        spec_delimited_name(s, d, i, j),
        spec_delimited_name(s, d, x, y),
    ensures
        i == x && j == y,
{
    if i < x {
        assert(s[i] != d);
    }
    if x < i {
        assert(s[x] != d);
    }
    if j < y {
        assert(s[j] != d);
    }
    if y < j {
        assert(s[y] != d);
    }
}

/// Every one of the first `upto` required fields occurs among the
/// provided keys.
pub open spec fn spec_provided_upto(provided: Seq<Seq<char>>, required: Seq<Seq<char>>, upto: int) -> bool {
    forall|i: int|
        0 <= i < upto ==> exists|j: int|
            0 <= j < provided.len() && #[trigger] provided[j] == #[trigger] required[i]
}

/// The views of a vector of strings.
pub open spec fn spec_strs(v: Seq<String>) -> Seq<Seq<char>> {
    v.map_values(|s: String| s@)
}

/// The first required field the provided keys miss, as the caller-facing
/// message, or nothing when every required field is provided.
pub fn validate_json_structure(provided: &Vec<String>, required: &Vec<String>) -> (r: Option<
    String,
>)
    ensures
        r is None <==> spec_provided_upto(spec_strs(provided@), spec_strs(required@), required@.len() as int),
        r matches Some(m) ==> exists|i: int|
            {
                &&& 0 <= i < required@.len()
                &&& m@ == "Missing required field: "@ + (#[trigger] required@[i])@
                &&& forall|j: int| 0 <= j < provided@.len() ==> (#[trigger] provided@[j])@ != required@[i]@
            },
{
    let mut i: usize = 0;
    while i < required.len()
        invariant
            i <= required@.len(),
            spec_provided_upto(spec_strs(provided@), spec_strs(required@), i as int),
        decreases required@.len() - i,
    {
        let mut found: bool = false;
        let mut j: usize = 0;
        while j < provided.len()
            invariant
                j <= provided@.len(),
                i < required@.len(),
                found ==> exists|k: int|
                    0 <= k < provided@.len() && (#[trigger] provided@[k])@ == required@[i as int]@,
                !found ==> forall|k: int|
                    0 <= k < j ==> (#[trigger] provided@[k])@ != required@[i as int]@,
            decreases provided@.len() - j,
        {
            if crate::text::str_eq(provided[j].as_str(), required[i].as_str()) {
                found = true;
            }
            j = j + 1;
        }
        if !found {
            let mut m = String::from_str("Missing required field: ");
            m.append(required[i].as_str());
            proof {
                assert(spec_strs(required@)[i as int] == required@[i as int]@);
                assert forall|j: int|
                    0 <= j < spec_strs(provided@).len() implies spec_strs(provided@)[j]
                    != spec_strs(required@)[i as int] by {
                    assert(provided@[j]@ != required@[i as int]@);
                }
                assert(!spec_provided_upto(
                    spec_strs(provided@),
                    spec_strs(required@),
                    required@.len() as int,
                ));
            }
            return Some(m);
        }
        proof {
            let j = choose|k: int|
                0 <= k < provided@.len() && (#[trigger] provided@[k])@ == required@[i as int]@;
            assert(spec_strs(provided@)[j] == spec_strs(required@)[i as int]);
            assert(spec_provided_upto(spec_strs(provided@), spec_strs(required@), i + 1));
        }
        i = i + 1;
    }
    None
}

} // verus!
