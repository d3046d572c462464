use vstd::prelude::*;

use crate::entry::{entry_at, entry_from, entry_of, EntryModel};
use crate::parser::{
    fold_init, fold_lines, has_colon, is_adapter_line, is_header, lines, parse_model, sealed, step,
    FoldState, SectionModel,
};
use crate::snapshot::{parse_result, ErrorModel};
use crate::text::trim;
use crate::viewer::next_snapshot;

verus! {

/// Lines that are blank once trimmed leave the state as it was.
proof fn lemma_blank_lines_keep_state(ls: Seq<Seq<char>>, st: FoldState)
    requires
        forall|i: int| 0 <= i < ls.len() ==> (#[trigger] trim(ls[i])).len() == 0,
    ensures
        fold_lines(ls, st) == st,
    decreases ls.len(),
{
    if ls.len() > 0 {
        assert(trim(ls[0]).len() == 0);
        let rest = ls.drop_first();
        assert forall|i: int| 0 <= i < rest.len() implies (#[trigger] trim(rest[i])).len() == 0 by {
            assert(rest[i] == ls[i + 1]);
        }
        lemma_blank_lines_keep_state(rest, step(st, ls[0]));
    }
}

/// Text whose lines are all blank holds no data.
pub proof fn law_blank_text_has_no_data(t: Seq<char>)
    requires
        forall|i: int| 0 <= i < lines(t).len() ==> (#[trigger] trim(lines(t)[i])).len() == 0,
    ensures
        parse_result(t) == Err::<Seq<SectionModel>, ErrorModel>(ErrorModel::NoDataFound),
{
    lemma_blank_lines_keep_state(lines(t), fold_init());
}

/// A line from which an entry is read holds a colon.
proof fn lemma_entry_has_colon(l: Seq<char>, k: int)
    requires
        entry_from(l, k) is Some,
    ensures
        has_colon(l),
    decreases l.len() - k,
{
    if 0 <= k < l.len() {
        if entry_at(l, k) is Some {
            assert(l[k] == ':');
        } else {
            lemma_entry_has_colon(l, k + 1);
        }
    }
}

/// A header line followed by one measurement line gives one section that holds that
/// one entry and no adapter.
pub proof fn law_header_and_entry(t: Seq<char>)
    requires
        lines(t).len() == 2,
        is_header(trim(lines(t)[0])),
        entry_of(trim(lines(t)[1])) is Some,
        !is_adapter_line(trim(lines(t)[1])),
    ensures
        parse_result(t) == Ok::<Seq<SectionModel>, ErrorModel>(
            seq![
                SectionModel {
                    name: trim(lines(t)[0]),
                    adapter: Seq::empty(),
                    entries: seq![entry_of(trim(lines(t)[1]))->0],
                },
            ],
        ),
{
    let ls = lines(t);
    lemma_entry_has_colon(trim(ls[1]), 0);
    let s1 = step(fold_init(), ls[0]);
    let s2 = step(s1, ls[1]);
    assert(fold_lines(ls.drop_first(), s1) == fold_lines(ls.drop_first().drop_first(), s2));
    assert(ls.drop_first().drop_first().len() == 0);
    assert(Seq::<EntryModel>::empty().push(entry_of(trim(ls[1]))->0) =~= seq![
        entry_of(trim(ls[1]))->0,
    ]);
    assert(sealed(s2) =~= seq![s2.open->0]);
}

/// A header line followed by two adapter lines gives a section whose adapter is the
/// text after the marker of the second one.
pub proof fn law_last_adapter_wins(t: Seq<char>)
    requires
        lines(t).len() == 3,
        is_header(trim(lines(t)[0])),
        is_adapter_line(trim(lines(t)[1])),
        is_adapter_line(trim(lines(t)[2])),
    ensures
        parse_result(t) == Ok::<Seq<SectionModel>, ErrorModel>(
            seq![
                SectionModel {
                    name: trim(lines(t)[0]),
                    adapter: trim(trim(lines(t)[2]).subrange(8, trim(lines(t)[2]).len() as int)),
                    entries: Seq::empty(),
                },
            ],
        ),
{
    let ls = lines(t);
    let s1 = step(fold_init(), ls[0]);
    let s2 = step(s1, ls[1]);
    let s3 = step(s2, ls[2]);
    assert(fold_lines(ls.drop_first(), s1) == fold_lines(ls.drop_first().drop_first(), s2));
    assert(fold_lines(ls.drop_first().drop_first(), s2) == fold_lines(
        ls.drop_first().drop_first().drop_first(),
        s3,
    ));
    assert(ls.drop_first().drop_first().drop_first().len() == 0);
    assert(sealed(s3) =~= seq![s3.open->0]);
}

/// A line that holds a colon but is neither an adapter line nor a measurement is
/// dropped: the state after it is the state before it, and the lines after it are
/// read as if it were not there.
pub proof fn law_unmatched_line_is_dropped(st: FoldState, raw: Seq<char>, rest: Seq<Seq<char>>)
    requires
        has_colon(trim(raw)),
        !is_adapter_line(trim(raw)),
        entry_of(trim(raw)) is None,
    ensures
        step(st, raw) == st,
        fold_lines(seq![raw] + rest, st) == fold_lines(rest, st),
{
    assert((seq![raw] + rest).drop_first() =~= rest);
}

/// Parsing depends on the text alone: the same text always gives the same result.
pub proof fn law_parse_is_deterministic(t1: Seq<char>, t2: Seq<char>)
    requires
        t1 == t2,
    ensures
        parse_result(t1) == parse_result(t2),
        parse_model(t1) == parse_model(t2),
{
}

/// The names of the header lines among `ls`, in order.
pub open spec fn header_names(ls: Seq<Seq<char>>) -> Seq<Seq<char>>
    decreases ls.len(),
{
    if ls.len() == 0 {
        Seq::empty()
    } else {
        let rest = header_names(ls.drop_first());
        if is_header(trim(ls[0])) {
            seq![trim(ls[0])] + rest
        } else {
            rest
        }
    }
}

pub open spec fn names_of(ss: Seq<SectionModel>) -> Seq<Seq<char>> {
    ss.map_values(|s: SectionModel| s.name)
}

proof fn lemma_fold_names(ls: Seq<Seq<char>>, st: FoldState)
    ensures
        names_of(sealed(fold_lines(ls, st))) == names_of(sealed(st)) + header_names(ls),
    decreases ls.len(),
{
    if ls.len() == 0 {
        assert(names_of(sealed(st)) + header_names(ls) =~= names_of(sealed(st)));
    } else {
        let s1 = step(st, ls[0]);
        lemma_fold_names(ls.drop_first(), s1);
        let l = trim(ls[0]);
        if is_header(l) {
            assert(names_of(sealed(s1)) =~= names_of(sealed(st)).push(l));
            assert(names_of(sealed(st)) + header_names(ls) =~= names_of(sealed(st)).push(l)
                + header_names(ls.drop_first()));
        } else {
            assert(names_of(sealed(s1)) =~= names_of(sealed(st)));
        }
    }
}

/// The sections come out in the order of their header lines in the text, one for
/// each header line; where the text has no header line, it holds no data.
pub proof fn law_sections_in_text_order(t: Seq<char>)
    ensures
        parse_result(t) matches Ok(ss) ==> names_of(ss) == header_names(lines(t)),
        parse_result(t) is Err <==> header_names(lines(t)).len() == 0,
{
    lemma_fold_names(lines(t), fold_init());
    assert(names_of(sealed(fold_init())) =~= Seq::<Seq<char>>::empty());
    assert(Seq::<Seq<char>>::empty() + header_names(lines(t)) =~= header_names(lines(t)));
}

/// The entries read from the lines `ls`, in order; `open` tells whether a section is
/// open before the first of them. Lines before the first header give none.
pub open spec fn entry_lines(ls: Seq<Seq<char>>, open: bool) -> Seq<EntryModel>
    decreases ls.len(),
{
    if ls.len() == 0 {
        Seq::empty()
    } else {
        let l = trim(ls[0]);
        let rest = ls.drop_first();
        if l.len() == 0 {
            entry_lines(rest, open)
        } else if is_header(l) {
            entry_lines(rest, true)
        } else if !open || is_adapter_line(l) {
            entry_lines(rest, open)
        } else {
            match entry_of(l) {
                Some(e) => seq![e] + entry_lines(rest, true),
                None => entry_lines(rest, true),
            }
        }
    }
}

/// The entries of all the sections, section after section.
pub open spec fn all_entries(ss: Seq<SectionModel>) -> Seq<EntryModel> {
    ss.map_values(|s: SectionModel| s.entries).flatten()
}

proof fn lemma_fold_entries(ls: Seq<Seq<char>>, st: FoldState)
    ensures
        all_entries(sealed(fold_lines(ls, st))) == all_entries(sealed(st)) + entry_lines(
            ls,
            st.open is Some,
        ),
    decreases ls.len(),
{
    if ls.len() == 0 {
        assert(all_entries(sealed(st)) + entry_lines(ls, st.open is Some) =~= all_entries(
            sealed(st),
        ));
    } else {
        let s1 = step(st, ls[0]);
        let rest = ls.drop_first();
        lemma_fold_entries(rest, s1);
        let l = trim(ls[0]);
        let m0 = sealed(st).map_values(|s: SectionModel| s.entries);
        let m1 = sealed(s1).map_values(|s: SectionModel| s.entries);
        if l.len() == 0 {
        } else if is_header(l) {
            assert(m1 =~= m0.push(Seq::<EntryModel>::empty()));
            m0.lemma_flatten_push(Seq::<EntryModel>::empty());
            assert(m0.flatten() + Seq::<EntryModel>::empty() =~= m0.flatten());
        } else {
            match st.open {
                None => {},
                Some(s) => {
                    let md = st.done.map_values(|s: SectionModel| s.entries);
                    assert(m0 =~= md.push(s.entries));
                    md.lemma_flatten_push(s.entries);
                    if is_adapter_line(l) {
                        assert(m1 =~= md.push(s.entries));
                    } else {
                        match entry_of(l) {
                            Some(e) => {
                                assert(m1 =~= md.push(s.entries.push(e)));
                                md.lemma_flatten_push(s.entries.push(e));
                                assert(md.flatten() + s.entries.push(e) + entry_lines(rest, true)
                                    =~= md.flatten() + s.entries + (seq![e] + entry_lines(
                                    rest,
                                    true,
                                )));
                            },
                            None => {},
                        }
                    }
                },
            }
        }
    }
}

/// The entries of the sections, taken section after section, are those read from the
/// measurement lines after the first header, in the order of the text.
pub proof fn law_entries_in_text_order(t: Seq<char>)
    ensures
        parse_result(t) matches Ok(ss) ==> all_entries(ss) == entry_lines(lines(t), false),
{
    lemma_fold_entries(lines(t), fold_init());
    assert(sealed(fold_init()).map_values(|s: SectionModel| s.entries) =~= Seq::<
        Seq<EntryModel>,
    >::empty());
    assert(Seq::<EntryModel>::empty() + entry_lines(lines(t), false) =~= entry_lines(
        lines(t),
        false,
    ));
}

/// A refresh whose run of the sensor tool failed shows that failure, whatever was
/// shown before: nothing of an earlier snapshot is kept.
pub proof fn law_failed_refresh_replaces_snapshot(
    prev: Result<Seq<SectionModel>, ErrorModel>,
    message: Seq<char>,
)
    ensures
        next_snapshot(prev, Err(message)) == Err::<Seq<SectionModel>, ErrorModel>(
            ErrorModel::SourceUnavailable(message),
        ),
{
}

} // verus!
