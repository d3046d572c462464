use vstd::prelude::*;

use crate::entry::{entry_of, parse_entry, EntryModel, SensorEntry};
use crate::text::{chars_of, copy_range, string_of, trim, trim_range};

verus! {

/// What a section holds.
pub struct SectionModel {
    pub name: Seq<char>,
    pub adapter: Seq<char>,
    pub entries: Seq<EntryModel>,
}

/// A named group of measurements, such as one sensor chip.
#[derive(Debug, Clone)]
pub struct SensorSection {
    pub name: String,
    pub adapter: String,
    pub entries: Vec<SensorEntry>,
}

impl View for SensorSection {
    type V = SectionModel;

    open spec fn view(&self) -> SectionModel {
        SectionModel {
            name: self.name@,
            adapter: self.adapter@,
            entries: self.entries@.map_values(|e: SensorEntry| e@),
        }
    }
}

/// The views of a sequence of sections.
pub open spec fn sections_view(v: Seq<SensorSection>) -> Seq<SectionModel> {
    v.map_values(|s: SensorSection| s@)
}

/// The end of the line that starts at `i`: the next line feed, or the end of the text.
pub open spec fn line_end(t: Seq<char>, i: int) -> int
    decreases t.len() - i,
{
    if i < 0 || i >= t.len() || t[i] == '\n' {
        i
    } else {
        line_end(t, i + 1)
    }
}

/// The lines of `t` from position `i` on, split at line feeds; a final line feed
/// starts no further line.
pub open spec fn lines_from(t: Seq<char>, i: int) -> Seq<Seq<char>>
    decreases t.len() + 1 - i,
{
    if i < 0 || i >= t.len() {
        Seq::empty()
    } else {
        let j = line_end(t, i);
        proof {
            lemma_line_end_bounds(t, i);
        }
        seq![t.subrange(i, j)] + lines_from(t, j + 1)
    }
}

pub proof fn lemma_line_end_bounds(t: Seq<char>, i: int)
    requires
        0 <= i <= t.len(),
    ensures
        i <= line_end(t, i) <= t.len(),
    decreases t.len() - i,
{
    if i < t.len() && t[i] != '\n' {
        lemma_line_end_bounds(t, i + 1);
    }
}

pub open spec fn lines(t: Seq<char>) -> Seq<Seq<char>> {
    lines_from(t, 0)
}

pub open spec fn has_colon(l: Seq<char>) -> bool {
    exists|i: int| 0 <= i < l.len() && l[i] == ':'
}

/// The line starts with the marker `Adapter:`.
pub open spec fn is_adapter_line(l: Seq<char>) -> bool {
    l.len() >= 8 && l[0] == 'A' && l[1] == 'd' && l[2] == 'a' && l[3] == 'p' && l[4] == 't'
        && l[5] == 'e' && l[6] == 'r' && l[7] == ':'
}

/// A trimmed, non-empty line that starts a section.
pub open spec fn is_header(l: Seq<char>) -> bool {
    l.len() > 0 && !has_colon(l) && !is_adapter_line(l)
}

/// The sections sealed so far, and the one still open, if any.
pub struct FoldState {
    pub done: Seq<SectionModel>,
    pub open: Option<SectionModel>,
}

pub open spec fn fold_init() -> FoldState {
    FoldState { done: Seq::empty(), open: None }
}

/// The sealed sections together with the open one.
pub open spec fn sealed(st: FoldState) -> Seq<SectionModel> {
    match st.open {
        Some(s) => st.done.push(s),
        None => st.done,
    }
}

/// What one raw line does to the state.
pub open spec fn step(st: FoldState, raw: Seq<char>) -> FoldState {
    let l = trim(raw);
    if l.len() == 0 {
        st
    } else if is_header(l) {
        FoldState {
            done: sealed(st),
            open: Some(SectionModel { name: l, adapter: Seq::empty(), entries: Seq::empty() }),
        }
    } else {
        match st.open {
            None => st,
            Some(s) => if is_adapter_line(l) {
                FoldState {
                    done: st.done,
                    open: Some(SectionModel { adapter: trim(l.subrange(8, l.len() as int)), ..s }),
                }
            } else {
                match entry_of(l) {
                    Some(e) => FoldState {
                        done: st.done,
                        open: Some(SectionModel { entries: s.entries.push(e), ..s }),
                    },
                    None => st,
                }
            },
        }
    }
}

/// The state after the lines `ls`, in order, starting from `st`.
pub open spec fn fold_lines(ls: Seq<Seq<char>>, st: FoldState) -> FoldState
    decreases ls.len(),
{
    if ls.len() == 0 {
        st
    } else {
        fold_lines(ls.drop_first(), step(st, ls[0]))
    }
}

/// The sections that `t` describes, in order; `None` where it describes none.
pub open spec fn parse_model(t: Seq<char>) -> Option<Seq<SectionModel>> {
    let all = sealed(fold_lines(lines(t), fold_init()));
    if all.len() == 0 {
        None
    } else {
        Some(all)
    }
}

fn line_end_exec(t: &Vec<char>, i: usize) -> (r: usize)
    requires
        i <= t@.len(),
    ensures
        r == line_end(t@, i as int),
        i <= r <= t@.len(),
{
    let mut j: usize = i;
    while j < t.len() && t[j] != '\n'
        invariant
            i <= j <= t@.len(),
            line_end(t@, i as int) == line_end(t@, j as int),
        decreases t@.len() - j,
    {
        j = j + 1;
    }
    j
}

fn contains_colon(l: &Vec<char>) -> (r: bool)
    ensures
        r == has_colon(l@),
{
    let mut i: usize = 0;
    while i < l.len()
        invariant
            i <= l@.len(),
            forall|j: int| 0 <= j < i ==> l@[j] != ':',
        decreases l@.len() - i,
    {
        if l[i] == ':' {
            return true;
        }
        i = i + 1;
    }
    false
}

fn starts_with_adapter(l: &Vec<char>) -> (r: bool)
    ensures
        r == is_adapter_line(l@),
{
    l.len() >= 8 && l[0] == 'A' && l[1] == 'd' && l[2] == 'a' && l[3] == 'p' && l[4] == 't'
        && l[5] == 'e' && l[6] == 'r' && l[7] == ':'
}

pub open spec fn open_view(o: Option<SensorSection>) -> Option<SectionModel> {
    match o {
        Some(s) => Some(s@),
        None => None,
    }
}

/// Reads the text that the sensor tool printed into its sections, in the order in
/// which they appear, or `None` where no section header is found.
pub fn parse_sections(text: &str) -> (r: Option<Vec<SensorSection>>)
    ensures
        parse_model(text@) == (match r {
            Some(v) => Some(sections_view(v@)),
            None => None::<Seq<SectionModel>>,
        }),
{
    let t = chars_of(text);
    let mut done: Vec<SensorSection> = Vec::new();
    let mut open: Option<SensorSection> = None;
    let mut i: usize = 0;
    assert(sections_view(done@) =~= Seq::<SectionModel>::empty());
    while i < t.len()
        invariant
            i <= t@.len(),
            t@ == text@,
            fold_lines(lines(t@), fold_init()) == fold_lines(
                lines_from(t@, i as int),
                FoldState { done: sections_view(done@), open: open_view(open) },
            ),
        decreases t@.len() - i,
    {
        let j = line_end_exec(&t, i);
        let ghost st = FoldState { done: sections_view(done@), open: open_view(open) };
        let ghost raw = t@.subrange(i as int, j as int);
        assert(lines_from(t@, i as int).drop_first() =~= lines_from(t@, j + 1));
        let (a, b) = trim_range(&t, i, j);
        let l = copy_range(&t, a, b);
        assert(l@ == trim(raw));
        if l.len() == 0 {
        } else if !contains_colon(&l) && !starts_with_adapter(&l) {
            match open {
                Some(s) => {
                    done.push(s);
                    assert(sections_view(done@) =~= st.done.push(s@));
                },
                None => {},
            }
            open = Some(SensorSection { name: string_of(&l, 0, l.len()), adapter: String::new(), entries: Vec::new() });
            assert(l@.subrange(0, l@.len() as int) =~= l@);
            assert(open_view(open)->0.entries =~= Seq::<EntryModel>::empty());
        } else {
            match open {
                Some(mut s) => {
                    if starts_with_adapter(&l) {
                        let (p, q) = trim_range(&l, 8, l.len());
                        s.adapter = string_of(&l, p, q);
                    } else {
                        match parse_entry(&l) {
                            Some(e) => {
                                let ghost before = s@.entries;
                                s.entries.push(e);
                                assert(s@.entries =~= before.push(e@));
                            },
                            None => {},
                        }
                    }
                    open = Some(s);
                },
                None => {},
            }
        }
        assert(FoldState { done: sections_view(done@), open: open_view(open) } == step(st, raw));
        if j < t.len() {
            i = j + 1;
        } else {
            assert(lines_from(t@, j + 1) =~= Seq::<Seq<char>>::empty());
            i = j;
        }
    }
    assert(lines_from(t@, i as int) =~= Seq::<Seq<char>>::empty());
    match open {
        Some(s) => {
            let ghost before = sections_view(done@);
            done.push(s);
            assert(sections_view(done@) =~= before.push(s@));
        },
        None => {},
    }
    if done.len() == 0 {
        None
    } else {
        Some(done)
    }
}

} // verus!
