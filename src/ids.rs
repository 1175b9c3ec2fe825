use vstd::prelude::*;
use crate::text::opt_view;
use crate::catalog::AddonInfo;

verus! {

/// A run of four or more digits in a file name: workshop ids have at least four.
pub const FILE_ID_PATTERN: &'static str = r"\d{4,}";

/// A workshop page url; its first group is the id.
pub const URL_ID_PATTERN: &'static str = r"https://steamcommunity.com/sharedfiles/filedetails/\?id=(\d+)";

/// The leftmost-first match of a regular expression in a text.
pub uninterp spec fn regex_find(pattern: Seq<char>, hay: Seq<char>) -> Option<Seq<char>>;

/// The first group of the leftmost-first match of a regular expression.
pub uninterp spec fn regex_group(pattern: Seq<char>, hay: Seq<char>) -> Option<Seq<char>>;

/// Relies on regex::Regex::new and Regex::find: the text of the leftmost-first
/// match of `pattern` in `hay`, which depends on the two texts alone.
#[verifier::external_body]
fn first_match(pattern: &str, hay: &str) -> (r: Option<String>)
    ensures
        opt_view(r) == regex_find(pattern@, hay@),
{
    let re = match regex::Regex::new(pattern) {
        Ok(re) => re,
        Err(_) => return None,
    };
    match re.find(hay) {
        Some(m) => Some(m.as_str().to_string()),
        None => None,
    }
}

/// Relies on regex::Regex::new and Regex::captures: the text of the first group
/// of the leftmost-first match of `pattern` in `hay`, which depends on the two
/// texts alone.
#[verifier::external_body]
fn first_group(pattern: &str, hay: &str) -> (r: Option<String>)
    ensures
        opt_view(r) == regex_group(pattern@, hay@),
{
    let re = match regex::Regex::new(pattern) {
        Ok(re) => re,
        Err(_) => return None,
    };
    match re.captures(hay) {
        Some(c) => match c.get(1) {
            Some(m) => Some(m.as_str().to_string()),
            None => None,
        },
        None => None,
    }
}

pub open spec fn is_digit(c: char) -> bool {
    '0' <= c <= '9'
}

pub open spec fn all_digits(s: Seq<char>) -> bool {
    forall|i: int| 0 <= i < s.len() ==> is_digit(#[trigger] s[i])
}

/// The value of a text of decimal digits.
pub open spec fn digits_value(s: Seq<char>) -> int
    decreases s.len(),
{
    if s.len() == 0 {
        0
    } else {
        digits_value(s.drop_last()) * 10 + (s.last() as int - '0' as int)
    }
}

/// The integer that a text writes: an optional sign, then one or more digits.
pub open spec fn integer_value(s: Seq<char>) -> Option<int> {
    if s.len() > 0 && (s[0] == '-' || s[0] == '+') {
        let d = s.drop_first();
        if d.len() > 0 && all_digits(d) {
            Some(if s[0] == '-' { -digits_value(d) } else { digits_value(d) })
        } else {
            None
        }
    } else if s.len() > 0 && all_digits(s) {
        Some(digits_value(s))
    } else {
        None
    }
}

/// The text read as an `i64`: `None` unless it writes an integer in range.
pub open spec fn parsed_i64(s: Seq<char>) -> Option<i64> {
    match integer_value(s) {
        Some(v) => if i64::MIN <= v <= i64::MAX {
            Some(v as i64)
        } else {
            None
        },
        None => None,
    }
}

proof fn lemma_digits_value_grows(s: Seq<char>, j: int)
    requires
        all_digits(s),
        0 <= j <= s.len(),
    ensures
        0 <= digits_value(s.subrange(0, j)) <= digits_value(s),
    decreases s.len(),
{
    if s.len() > 0 {
        if j < s.len() {
            assert(s.drop_last().subrange(0, j) =~= s.subrange(0, j));
            lemma_digits_value_grows(s.drop_last(), j);
        } else {
            assert(s.subrange(0, j) =~= s);
            lemma_digits_value_grows(s.drop_last(), j - 1);
        }
    }
}

/// Reads a decimal integer with an optional sign, as `i64`.
pub fn parse_i64(s: &str) -> (r: Option<i64>)
    ensures
        r == parsed_i64(s@),
{
    let n = s.unicode_len();
    if n == 0 {
        return None;
    }
    let first = s.get_char(0);
    let negative = first == '-';
    let start: usize = if first == '-' || first == '+' { 1 } else { 0 };
    if start == n {
        return None;
    }
    let ghost d = s@.subrange(start as int, n as int);
    proof {
        if start == 1 {
            assert(d =~= s@.drop_first());
        } else {
            assert(d =~= s@);
        }
    }
    let limit: u64 = if negative { 9223372036854775808 } else { 9223372036854775807 };
    let mut acc: u64 = 0;
    let mut i: usize = start;
    while i < n
        invariant
            n == s@.len(),
            start <= i <= n,
            start < n,
            d == s@.subrange(start as int, n as int),
            acc as int == digits_value(d.subrange(0, i - start)),
            acc <= limit,
            all_digits(d.subrange(0, i - start)),
            first == s@[0],
            negative == (first == '-'),
            start == (if first == '-' || first == '+' { 1usize } else { 0usize }),
            limit == (if negative { 9223372036854775808u64 } else { 9223372036854775807u64 }),
        decreases n - i,
    {
        let c = s.get_char(i);
        if !('0' <= c && c <= '9') {
            proof {
                assert(d[i - start] == c);
                assert(!is_digit(d[i - start]));
                assert(!all_digits(d));
                if start == 1 {
                    assert(s@[0] == '-' || s@[0] == '+');
                } else {
                    assert(!(s@[0] == '-' || s@[0] == '+'));
                }
            }
            return None;
        }
        proof {
            assert('0' as u32 <= c as u32 <= '9' as u32);
        }
        let digit: u64 = (c as u32 - '0' as u32) as u64;
        assert(digit <= 9);
        proof {
            let p = d.subrange(0, i - start + 1);
            assert(p.drop_last() =~= d.subrange(0, i - start));
            assert(p.last() == c);
        }
        if acc > (limit - digit) / 10 {
            proof {
                let p = d.subrange(0, i - start + 1);
                assert(digits_value(p) == acc * 10 + digit);
                assert(acc * 10 + digit > limit) by (nonlinear_arith)
                    requires
                        acc > (limit - digit) / 10,
                        digit <= 9,
                        limit >= 9,
                ;
                assert(digits_value(p) > limit);
                if start == 1 {
                    assert(d =~= s@.drop_first());
                } else {
                    assert(d =~= s@);
                }
                if all_digits(d) {
                    lemma_digits_value_grows(d, i - start + 1);
                    assert(digits_value(d) > limit);
                }
            }
            return None;
        }
        acc = acc * 10 + digit;
        proof {
            assert forall|k: int| 0 <= k < i - start + 1 implies is_digit(
                #[trigger] d.subrange(0, i - start + 1)[k],
            ) by {
                if k < i - start {
                    assert(d.subrange(0, i - start)[k] == d[k]);
                }
            }
        }
        i = i + 1;
    }
    proof {
        assert(d.subrange(0, n - start) =~= d);
        if start == 1 {
            assert(d =~= s@.drop_first());
        } else {
            assert(d =~= s@);
        }
    }
    if negative {
        if acc == 9223372036854775808 {
            Some(i64::MIN)
        } else {
            Some(-(acc as i64))
        }
    } else {
        Some(acc as i64)
    }
}

/// A parsed id, if the optional text holds one.
pub open spec fn id_in(m: Option<Seq<char>>) -> Option<i64> {
    match m {
        Some(t) => parsed_i64(t),
        None => None,
    }
}

/// The workshop id from the two matches: the id that the file-name match
/// writes, else the one that the url match writes.
pub open spec fn id_from_matches(name_match: Option<Seq<char>>, url_match: Option<Seq<char>>) -> Option<i64> {
    if id_in(name_match) is Some {
        id_in(name_match)
    } else {
        id_in(url_match)
    }
}

/// The id match in an addon's url, if it has one.
pub open spec fn url_match(url: Option<Seq<char>>) -> Option<Seq<char>> {
    match url {
        Some(u) => regex_group(URL_ID_PATTERN@, u),
        None => None,
    }
}

/// The workshop id of an addon: digits in the file name first, so that a user
/// can set an id by renaming the file, else the id in the addon's url.
pub open spec fn workshop_id_for(filename: Seq<char>, url: Option<Seq<char>>) -> Option<i64> {
    id_from_matches(regex_find(FILE_ID_PATTERN@, filename), url_match(url))
}

/// Reads the workshop id out of the match in the file name, else out of the
/// match in the url.
pub fn workshop_id_from_matches(name_match: &Option<String>, url_match: &Option<String>) -> (r: Option<i64>)
    ensures
        r == id_from_matches(opt_view(*name_match), opt_view(*url_match)),
{
    if let Some(m) = name_match {
        if let Some(id) = parse_i64(m.as_str()) {
            return Some(id);
        }
    }
    match url_match {
        Some(m) => parse_i64(m.as_str()),
        None => None,
    }
}

/// Looks for a workshop id in the file name, then in the addon's url.
pub fn find_workshop_id(filename: &str, addon: &AddonInfo) -> (r: Option<i64>)
    ensures
        r == workshop_id_for(filename@, opt_view(addon.addon_url)),
{
    let name_match = first_match(FILE_ID_PATTERN, filename);
    let url_match = match &addon.addon_url {
        Some(url) => first_group(URL_ID_PATTERN, url.as_str()),
        None => None,
    };
    workshop_id_from_matches(&name_match, &url_match)
}

/// A package file: its name has the `vpk` extension after a non-empty stem.
pub open spec fn is_package_name(name: Seq<char>) -> bool {
    name.len() > 4 && name.subrange(name.len() - 4, name.len() as int) == seq!['.', 'v', 'p', 'k']
}

/// Whether a file name is that of a package file.
pub fn is_package_file(name: &str) -> (r: bool)
    ensures
        r == is_package_name(name@),
{
    let n = name.unicode_len();
    if n <= 4 {
        return false;
    }
    let r = name.get_char(n - 4) == '.' && name.get_char(n - 3) == 'v' && name.get_char(n - 2) == 'p'
        && name.get_char(n - 1) == 'k';
    proof {
        let tail = name@.subrange(n - 4, n as int);
        if r {
            assert(tail =~= seq!['.', 'v', 'p', 'k']);
        } else {
            if tail == seq!['.', 'v', 'p', 'k'] {
                assert(tail[0] == name@[n - 4]);
                assert(tail[1] == name@[n - 3]);
                assert(tail[2] == name@[n - 2]);
                assert(tail[3] == name@[n - 1]);
            }
        }
    }
    r
}

/// The ids that file stems write, in order; a stem that is no integer is skipped.
pub open spec fn ids_of_stems(stems: Seq<Seq<char>>) -> Seq<i64>
    decreases stems.len(),
{
    if stems.len() == 0 {
        Seq::empty()
    } else {
        let rest = ids_of_stems(stems.drop_last());
        match parsed_i64(stems.last()) {
            Some(id) => rest.push(id),
            None => rest,
        }
    }
}

/// Workshop ids of the packages in the workshop folder, from their file stems.
pub fn get_workshop_folder_ws_ids(stems: &Vec<String>) -> (r: Vec<i64>)
    ensures
        r@ == ids_of_stems(stems@.map_values(|s: String| s@)),
{
    let ghost all = stems@.map_values(|s: String| s@);
    let mut r: Vec<i64> = Vec::new();
    let mut i: usize = 0;
    while i < stems.len()
        invariant
            i <= stems.len(),
            all == stems@.map_values(|s: String| s@),
            r@ == ids_of_stems(all.subrange(0, i as int)),
        decreases stems.len() - i,
    {
        proof {
            assert(all.subrange(0, i as int + 1).drop_last() =~= all.subrange(0, i as int));
        }
        if let Some(id) = parse_i64(stems[i].as_str()) {
            r.push(id);
        }
        i = i + 1;
    }
    proof {
        assert(all.subrange(0, i as int) =~= all);
    }
    r
}

} // verus!
