use vstd::prelude::*;

use crate::text::{is_space, is_space_spec, string_of, trim, trim_range};

verus! {

/// What one measurement line holds.
pub struct EntryModel {
    pub key: Seq<char>,
    pub value: Seq<char>,
    pub info: Option<Seq<char>>,
}

/// One measurement line of a section.
#[derive(Debug, Clone)]
pub struct SensorEntry {
    pub key: String,
    pub value: String,
    pub additional_info: Option<String>,
}

impl View for SensorEntry {
    type V = EntryModel;

    open spec fn view(&self) -> EntryModel {
        EntryModel {
            key: self.key@,
            value: self.value@,
            info: match self.additional_info {
                Some(s) => Some(s@),
                None => None,
            },
        }
    }
}

pub open spec fn is_digit_spec(c: char) -> bool {
    '0' as u32 <= c as u32 && c as u32 <= '9' as u32
}

/// The first position at or after `i` that holds no white space.
pub open spec fn skip_space(l: Seq<char>, i: int) -> int
    decreases l.len() - i,
{
    if 0 <= i < l.len() && is_space_spec(l[i]) {
        skip_space(l, i + 1)
    } else {
        i
    }
}

/// The first position at or after `i` that holds no digit.
pub open spec fn skip_digits(l: Seq<char>, i: int) -> int
    decreases l.len() - i,
{
    if 0 <= i < l.len() && is_digit_spec(l[i]) {
        skip_digits(l, i + 1)
    } else {
        i
    }
}

/// Where a number that starts at `v` ends: an optional sign, one digit or more,
/// then optionally a point and more digits. `None` where no number starts at `v`.
pub open spec fn number_end(l: Seq<char>, v: int) -> Option<int> {
    let s = if v < l.len() && (l[v] == '+' || l[v] == '-') {
        v + 1
    } else {
        v
    };
    let d = skip_digits(l, s);
    if d == s {
        None
    } else if d < l.len() && l[d] == '.' {
        Some(skip_digits(l, d + 1))
    } else {
        Some(d)
    }
}

/// The length of the unit that starts at `p`: one of °C, RPM, V, W, %, mA; 0 where none does.
pub open spec fn unit_len(l: Seq<char>, p: int) -> int {
    if 0 <= p && p + 2 <= l.len() && l[p] == '°' && l[p + 1] == 'C' {
        2
    } else if 0 <= p && p + 3 <= l.len() && l[p] == 'R' && l[p + 1] == 'P' && l[p + 2] == 'M' {
        3
    } else if 0 <= p < l.len() && (l[p] == 'V' || l[p] == 'W' || l[p] == '%') {
        1
    } else if 0 <= p && p + 2 <= l.len() && l[p] == 'm' && l[p + 1] == 'A' {
        2
    } else {
        0
    }
}

/// How the line ends after position `e`: `Some(None)` where it ends there,
/// `Some(Some((a, b)))` where the rest is white space and a parenthesised note whose
/// text is `l[a..b]`, not empty; `None` otherwise.
pub open spec fn tail_at(l: Seq<char>, e: int) -> Option<Option<(int, int)>> {
    let p = skip_space(l, e);
    if e == l.len() {
        Some(None)
    } else if e < p && p < l.len() && l[p] == '(' && l[l.len() - 1] == ')' && p + 2 < l.len() {
        Some(Some((p + 1, l.len() - 1)))
    } else {
        None
    }
}

/// The end of the value whose number ends at `n`, and the note after it.
/// The choices are tried in this order: a space and a unit, a space alone, a unit
/// alone, nothing; the first after which the line can end is taken.
pub open spec fn value_end(l: Seq<char>, n: int) -> Option<(int, Option<(int, int)>)> {
    let sp = n < l.len() && is_space_spec(l[n]);
    let u1 = unit_len(l, n + 1);
    let u0 = unit_len(l, n);
    if sp && u1 > 0 && tail_at(l, n + 1 + u1) is Some {
        Some((n + 1 + u1, tail_at(l, n + 1 + u1)->0))
    } else if sp && tail_at(l, n + 1) is Some {
        Some((n + 1, tail_at(l, n + 1)->0))
    } else if u0 > 0 && tail_at(l, n + u0) is Some {
        Some((n + u0, tail_at(l, n + u0)->0))
    } else if tail_at(l, n) is Some {
        Some((n, tail_at(l, n)->0))
    } else {
        None
    }
}

/// The entry read from `l` when its key ends at the colon at `k`.
pub open spec fn entry_at(l: Seq<char>, k: int) -> Option<EntryModel> {
    if 1 <= k && k + 1 < l.len() && l[k] == ':' && is_space_spec(l[k + 1]) {
        let v = skip_space(l, k + 1);
        match number_end(l, v) {
            Some(n) => match value_end(l, n) {
                Some((e, note)) => Some(
                    EntryModel {
                        key: trim(l.subrange(0, k)),
                        value: trim(l.subrange(v, e)),
                        info: match note {
                            Some((a, b)) => Some(l.subrange(a, b)),
                            None => None,
                        },
                    },
                ),
                None => None,
            },
            None => None,
        }
    } else {
        None
    }
}

/// The entry read from `l` with the first colon at or after `k` that leads to one.
pub open spec fn entry_from(l: Seq<char>, k: int) -> Option<EntryModel>
    decreases l.len() - k,
{
    if k < 0 || k >= l.len() {
        None
    } else if entry_at(l, k) is Some {
        entry_at(l, k)
    } else {
        entry_from(l, k + 1)
    }
}

/// The entry that a whole line holds: `key: value (note)`, where the key is the
/// shortest prefix after which the rest of the line is a value and an optional note.
pub open spec fn entry_of(l: Seq<char>) -> Option<EntryModel> {
    entry_from(l, 0)
}

fn is_digit(c: char) -> (r: bool)
    ensures
        r == is_digit_spec(c),
{
    '0' as u32 <= c as u32 && c as u32 <= '9' as u32
}

fn skip_space_exec(l: &Vec<char>, i: usize) -> (r: usize)
    requires
        i <= l@.len(),
    ensures
        r == skip_space(l@, i as int),
        i <= r <= l@.len(),
{
    let mut j: usize = i;
    while j < l.len() && is_space(l[j])
        invariant
            i <= j <= l@.len(),
            skip_space(l@, i as int) == skip_space(l@, j as int),
        decreases l@.len() - j,
    {
        j = j + 1;
    }
    j
}

fn skip_digits_exec(l: &Vec<char>, i: usize) -> (r: usize)
    requires
        i <= l@.len(),
    ensures
        r == skip_digits(l@, i as int),
        i <= r <= l@.len(),
{
    let mut j: usize = i;
    while j < l.len() && is_digit(l[j])
        invariant
            i <= j <= l@.len(),
            skip_digits(l@, i as int) == skip_digits(l@, j as int),
        decreases l@.len() - j,
    {
        j = j + 1;
    }
    j
}

fn number_end_exec(l: &Vec<char>, v: usize) -> (r: Option<usize>)
    requires
        v <= l@.len(),
    ensures
        number_end(l@, v as int) == (match r {
            Some(n) => Some(n as int),
            None => None::<int>,
        }),
        r matches Some(n) ==> v < n <= l@.len(),
{
    let s = if v < l.len() && (l[v] == '+' || l[v] == '-') {
        v + 1
    } else {
        v
    };
    let d = skip_digits_exec(l, s);
    if d == s {
        None
    } else if d < l.len() && l[d] == '.' {
        Some(skip_digits_exec(l, d + 1))
    } else {
        Some(d)
    }
}

fn unit_len_exec(l: &Vec<char>, p: usize) -> (r: usize)
    requires
        p <= l@.len(),
    ensures
        r == unit_len(l@, p as int),
        p + r <= l@.len(),
{
    let n = l.len();
    if n - p >= 2 && l[p] == '°' && l[p + 1] == 'C' {
        2
    } else if n - p >= 3 && l[p] == 'R' && l[p + 1] == 'P' && l[p + 2] == 'M' {
        3
    } else if p < n && (l[p] == 'V' || l[p] == 'W' || l[p] == '%') {
        1
    } else if n - p >= 2 && l[p] == 'm' && l[p + 1] == 'A' {
        2
    } else {
        0
    }
}

fn tail_at_exec(l: &Vec<char>, e: usize) -> (r: Option<Option<(usize, usize)>>)
    requires
        e <= l@.len(),
    ensures
        tail_at(l@, e as int) == (match r {
            Some(Some((a, b))) => Some(Some((a as int, b as int))),
            Some(None) => Some(None::<(int, int)>),
            None => None::<Option<(int, int)>>,
        }),
        r matches Some(Some((a, b))) ==> a <= b <= l@.len(),
{
    let p = skip_space_exec(l, e);
    let n = l.len();
    if e == n {
        Some(None)
    } else if e < p && p < n && l[p] == '(' && l[n - 1] == ')' && p + 2 < n {
        Some(Some((p + 1, n - 1)))
    } else {
        None
    }
}

fn value_end_exec(l: &Vec<char>, n: usize) -> (r: Option<(usize, Option<(usize, usize)>)>)
    requires
        n <= l@.len(),
    ensures
        value_end(l@, n as int) == (match r {
            Some((e, Some((a, b)))) => Some((e as int, Some((a as int, b as int)))),
            Some((e, None)) => Some((e as int, None::<(int, int)>)),
            None => None::<(int, Option<(int, int)>)>,
        }),
        r matches Some((e, note)) ==> n <= e <= l@.len() && (note matches Some((a, b)) ==> a
            <= b <= l@.len()),
{
    let sp = n < l.len() && is_space(l[n]);
    if sp {
        let u1 = unit_len_exec(l, n + 1);
        if u1 > 0 {
            if let Some(t) = tail_at_exec(l, n + 1 + u1) {
                return Some((n + 1 + u1, t));
            }
        }
        if let Some(t) = tail_at_exec(l, n + 1) {
            return Some((n + 1, t));
        }
    }
    let u0 = unit_len_exec(l, n);
    if u0 > 0 {
        if let Some(t) = tail_at_exec(l, n + u0) {
            return Some((n + u0, t));
        }
    }
    if let Some(t) = tail_at_exec(l, n) {
        return Some((n, t));
    }
    None
}

fn entry_at_exec(l: &Vec<char>, k: usize) -> (r: Option<SensorEntry>)
    requires
        k < l@.len(),
    ensures
        match r {
            Some(e) => entry_at(l@, k as int) == Some(e@),
            None => entry_at(l@, k as int) is None,
        },
{
    if !(1 <= k && k < l.len() - 1 && l[k] == ':' && is_space(l[k + 1])) {
        return None;
    }
    let v = skip_space_exec(l, k + 1);
    let n = match number_end_exec(l, v) {
        Some(n) => n,
        None => return None,
    };
    let (e, note) = match value_end_exec(l, n) {
        Some(x) => x,
        None => return None,
    };
    let (ka, kb) = trim_range(l, 0, k);
    let (va, vb) = trim_range(l, v, e);
    let info = match note {
        Some((a, b)) => Some(string_of(l, a, b)),
        None => None,
    };
    Some(SensorEntry { key: string_of(l, ka, kb), value: string_of(l, va, vb), additional_info: info })
}

/// Reads a trimmed line as a measurement: `None` where it does not have that shape.
pub fn parse_entry(l: &Vec<char>) -> (r: Option<SensorEntry>)
    ensures
        match r {
            Some(e) => entry_of(l@) == Some(e@),
            None => entry_of(l@) is None,
        },
{
    let mut k: usize = 0;
    while k < l.len()
        invariant
            k <= l@.len(),
            entry_of(l@) == entry_from(l@, k as int),
        decreases l@.len() - k,
    {
        if let Some(e) = entry_at_exec(l, k) {
            return Some(e);
        }
        k = k + 1;
    }
    None
}

} // verus!
