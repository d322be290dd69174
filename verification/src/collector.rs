//! The collector: from what a walk of the directory tree reported, the
//! files that the include patterns select, in the order of the walk.

use vstd::prelude::*;
use crate::pattern::{
    accepted, all_compile, base_name, fault_message, fault_position, first_fault,
    glob_syntax_error, has_wildcard, lemma_first_fault, pattern_accepts, IncludeSet,
    PatternSyntaxError,
};
use crate::search::{
    first_where, lemma_first_where, lemma_first_where_prefix, lemma_first_where_step,
};

verus! {

/// One thing a walk of the tree reported, in the order of the walk.
#[derive(Debug, PartialEq, Eq)]
pub enum WalkItem {
    /// An entry that the ignore rules let through: its `/`-separated path
    /// relative to the root, and whether it is a regular file.
    Entry { path: String, is_file: bool },
    /// A place that could not be read: how deep below the root it lies, as
    /// far as the walk knows (the root itself is at depth 0), and the
    /// walk's description of the failure.
    Failed { depth: Option<usize>, detail: String },
}

/// Why nothing was collected.
#[derive(Debug, PartialEq, Eq)]
pub enum CollectError {
    /// The root could not be read.
    RootAccess { detail: String },
    /// An include pattern is no valid glob.
    PatternSyntax(PatternSyntaxError),
}

/// How a collection ends, over plain text.
pub enum Outcome {
    /// The paths selected, in the order of the walk.
    Files(Seq<Seq<char>>),
    /// An include pattern that `glob` refuses, with what it reported.
    BadPattern { pattern: Seq<char>, position: int, message: Seq<char> },
    /// The root could not be read.
    BadRoot { detail: Seq<char> },
}

/// A failure of the walk is fatal where it concerns the root itself.
pub open spec fn is_root_failure(item: WalkItem) -> bool {
    item matches WalkItem::Failed { depth, .. } && depth == Some(0usize)
}

/// The index of the first failure at the root, if there is one.
pub open spec fn root_failure(items: Seq<WalkItem>) -> Option<int> {
    first_where(items, |item: WalkItem| is_root_failure(item))
}

/// The path under which an item enters the result, if it does: the item is
/// an entry, a regular file, and the patterns select its path.
pub open spec fn chosen(item: WalkItem, patterns: Seq<Seq<char>>) -> Option<Seq<char>> {
    match item {
        WalkItem::Entry { path, is_file } => if is_file && accepted(patterns, path@) {
            Some(path@)
        } else {
            None
        },
        WalkItem::Failed { .. } => None,
    }
}

/// The selected paths: those of the chosen items, in the order of the walk.
pub open spec fn selection(items: Seq<WalkItem>, patterns: Seq<Seq<char>>) -> Seq<Seq<char>> {
    items.filter_map(|item: WalkItem| chosen(item, patterns))
}

/// The detail that an item carries, where it is a failure.
pub open spec fn failure_detail(item: WalkItem) -> Seq<char> {
    match item {
        WalkItem::Failed { detail, .. } => detail@,
        WalkItem::Entry { .. } => Seq::empty(),
    }
}

/// What the first failure at the root says, if there is one.
pub open spec fn root_failure_detail(items: Seq<WalkItem>) -> Option<Seq<char>> {
    match root_failure(items) {
        Some(k) => Some(failure_detail(items[k])),
        None => None,
    }
}

/// How collecting must end. A pattern that does not compile comes first: the
/// first such pattern is reported, whatever the walk saw. Then a failure at
/// the root, which is fatal. Failures below the root are passed over, and
/// the selection is returned.
pub open spec fn outcome(items: Seq<WalkItem>, patterns: Seq<Seq<char>>) -> Outcome {
    match first_fault(patterns) {
        Some(k) => Outcome::BadPattern {
            pattern: patterns[k],
            position: fault_position(patterns[k]),
            message: fault_message(patterns[k]),
        },
        None => match root_failure_detail(items) {
            Some(detail) => Outcome::BadRoot { detail },
            None => Outcome::Files(selection(items, patterns)),
        },
    }
}

/// What a returned value says, over plain text.
pub open spec fn observed(r: Result<Vec<String>, CollectError>) -> Outcome {
    match r {
        Ok(paths) => Outcome::Files(paths.deep_view()),
        Err(CollectError::PatternSyntax(e)) => Outcome::BadPattern {
            pattern: e.pattern@,
            position: e.position as int,
            message: e.message@,
        },
        Err(CollectError::RootAccess { detail }) => Outcome::BadRoot { detail: detail@ },
    }
}

impl IncludeSet {
    /// The files among `items` that the set selects, in the order of the
    /// walk; an error where the walk failed at the root.
    pub fn select(&self, items: &[WalkItem]) -> (r: Result<Vec<String>, CollectError>)
        ensures
            match r {
                Ok(paths) => root_failure(items@) is None && paths.deep_view()
                    == selection(items@, self@),
                Err(CollectError::RootAccess { detail }) => root_failure_detail(items@)
                    == Some(detail@),
                Err(CollectError::PatternSyntax(_)) => false,
            },
    {
        let ghost pick = |item: WalkItem| chosen(item, self@);
        let ghost fatal = |item: WalkItem| is_root_failure(item);
        let mut paths: Vec<String> = Vec::new();
        let mut i: usize = 0;
        while i < items.len()
            invariant
                i <= items.len(),
                pick == |item: WalkItem| chosen(item, self@),
                fatal == |item: WalkItem| is_root_failure(item),
                first_where(items@.take(i as int), fatal) is None,
                paths.deep_view() == items@.take(i as int).filter_map(pick),
            decreases items.len() - i,
        {
            proof {
                lemma_first_where_step(items@, fatal, i as int);
                items@.lemma_filter_map_take_succ(pick, i as int);
            }
            let ghost before = paths.deep_view();
            match &items[i] {
                WalkItem::Entry { path, is_file } => {
                    if *is_file && self.accepts(path.as_str()) {
                        paths.push(path.clone());
                        assert(paths.deep_view() =~= before + seq![path@]);
                    }
                },
                WalkItem::Failed { depth, detail } => {
                    let at_root = match depth {
                        Some(d) => *d == 0,
                        None => false,
                    };
                    if at_root {
                        proof {
                            lemma_first_where_prefix(items@, fatal, i + 1);
                        }
                        return Err(CollectError::RootAccess { detail: detail.clone() });
                    }
                },
            }
            i += 1;
        }
        assert(items@.take(i as int) =~= items@);
        Ok(paths)
    }
}

/// Collects the files that a walk reported and the include patterns select.
///
/// The patterns are compiled first: the first one that is no valid glob
/// fails the call, with that pattern in the error. Then a failure of the walk
/// at the root fails it. Otherwise the result holds, in the order of the
/// walk, the path of every entry that is a regular file and that the
/// patterns select; with no pattern at all, every regular file.
pub fn collect_files(
    items: &[WalkItem],
    include_patterns: &[String],
) -> (r: Result<Vec<String>, CollectError>)
    ensures
        observed(r) == outcome(items@, include_patterns.deep_view()),
{
    proof {
        lemma_first_fault(include_patterns.deep_view());
    }
    match IncludeSet::new(include_patterns) {
        Err(e) => Err(CollectError::PatternSyntax(e)),
        Ok(set) => set.select(items),
    }
}

/// The path of every regular file that a walk reported, in its order.
pub open spec fn regular_files(items: Seq<WalkItem>) -> Seq<Seq<char>> {
    items.filter_map(
        |item: WalkItem|
            match item {
                WalkItem::Entry { path, is_file } => if is_file {
                    Some(path@)
                } else {
                    None
                },
                WalkItem::Failed { .. } => None,
            },
    )
}

/// The path of an item that is an entry.
pub open spec fn entry_path(item: WalkItem) -> Option<Seq<char>> {
    match item {
        WalkItem::Entry { path, .. } => Some(path@),
        WalkItem::Failed { .. } => None,
    }
}

/// No two entries of the walk have the same path.
pub open spec fn distinct_entries(items: Seq<WalkItem>) -> bool {
    forall|i: int, j: int|
        0 <= i < j < items.len() && (#[trigger] entry_path(items[i])) is Some ==> entry_path(items[i])
            != #[trigger] entry_path(items[j])
}

/// Collecting is a function of what the walk reported and of the patterns:
/// two results for the same input say the same, path for path and in the
/// same order.
pub proof fn lemma_collect_is_deterministic(
    items: Seq<WalkItem>,
    patterns: Seq<Seq<char>>,
    first: Result<Vec<String>, CollectError>,
    second: Result<Vec<String>, CollectError>,
)
    requires
        observed(first) == outcome(items, patterns),
        observed(second) == outcome(items, patterns),
    ensures
        observed(first) == observed(second),
        first matches Ok(a) ==> second matches Ok(b) && a.deep_view() == b.deep_view(),
{
}

/// Files are returned exactly where every pattern compiles and the walk did
/// not fail at the root.
pub proof fn lemma_success_is_owed(items: Seq<WalkItem>, patterns: Seq<Seq<char>>)
    ensures
        outcome(items, patterns) is Files <==> all_compile(patterns) && forall|j: int|
            0 <= j < items.len() ==> !is_root_failure(#[trigger] items[j]),
{
    lemma_first_fault(patterns);
    lemma_first_where(items, |item: WalkItem| is_root_failure(item));
}

/// A pattern that does not compile fails the whole collection, whatever the
/// walk reported: the error names the first such pattern.
pub proof fn lemma_refused_pattern_fails(items: Seq<WalkItem>, patterns: Seq<Seq<char>>, i: int)
    requires
        0 <= i < patterns.len(),
        glob_syntax_error(patterns[i]) is Some,
    ensures
        ({
            &&& first_fault(patterns) matches Some(k)
            &&& 0 <= k <= i
            &&& glob_syntax_error(patterns[k]) is Some
            &&& outcome(items, patterns) == (Outcome::BadPattern {
                pattern: patterns[k],
                position: fault_position(patterns[k]),
                message: fault_message(patterns[k]),
            })
        }),
{
    lemma_first_fault(patterns);
    if let Some(k) = first_fault(patterns) {
        if i < k {
            assert(patterns.take(k)[i] == patterns[i]);
        }
    }
}

/// A failure of the walk below the root changes nothing: the result is
/// that of the walk without it.
pub proof fn lemma_failure_below_root_is_skipped(
    items: Seq<WalkItem>,
    patterns: Seq<Seq<char>>,
    i: int,
)
    requires
        0 <= i < items.len(),
        items[i] is Failed,
        !is_root_failure(items[i]),
    ensures
        selection(items.remove(i), patterns) == selection(items, patterns),
        root_failure_detail(items.remove(i)) == root_failure_detail(items),
        outcome(items.remove(i), patterns) == outcome(items, patterns),
    decreases items.len(),
{
    let fatal = |item: WalkItem| is_root_failure(item);
    let front = items.drop_last();
    let rest = items.remove(i);
    lemma_first_where(front, fatal);
    if i == items.len() - 1 {
        assert(rest =~= front);
        if let Some(k) = first_where(front, fatal) {
            assert(front[k] == items[k]);
        }
    } else {
        lemma_failure_below_root_is_skipped(front, patterns, i);
        assert(rest.drop_last() =~= front.remove(i));
        assert(rest.last() == items.last());
        lemma_first_where(front.remove(i), fatal);
        if let Some(k) = first_where(front, fatal) {
            assert(front[k] == items[k]);
        }
        if let Some(k) = first_where(front.remove(i), fatal) {
            assert(front.remove(i)[k] == rest[k]);
        }
    }
}

/// Include patterns only ever add: what a set of patterns selects, the set
/// with one more pattern selects too.
pub proof fn lemma_more_patterns_select_more(
    patterns: Seq<Seq<char>>,
    extra: Seq<char>,
    path: Seq<char>,
)
    requires
        patterns.len() > 0,
        accepted(patterns, path),
    ensures
        accepted(patterns.push(extra), path),
{
    let i = choose|i: int| 0 <= i < patterns.len() && pattern_accepts(#[trigger] patterns[i], path);
    assert(patterns.push(extra)[i] == patterns[i]);
}

/// With no include pattern, every regular file that the walk reported is
/// selected, and nothing else; unless the walk failed at the root, that is
/// the result.
pub proof fn lemma_no_pattern_selects_every_file(items: Seq<WalkItem>)
    ensures
        selection(items, Seq::empty()) == regular_files(items),
        root_failure(items) is None ==> outcome(items, Seq::empty())
            == Outcome::Files(regular_files(items)),
    decreases items.len(),
{
    if items.len() > 0 {
        lemma_no_pattern_selects_every_file(items.drop_last());
    }
}

/// A pattern without wildcards selects every path whose base name it is,
/// however deep the path lies.
pub proof fn lemma_literal_pattern_selects_base_name(
    patterns: Seq<Seq<char>>,
    k: int,
    path: Seq<char>,
)
    requires
        0 <= k < patterns.len(),
        !has_wildcard(patterns[k]),
        base_name(path) == patterns[k],
    ensures
        pattern_accepts(patterns[k], path),
        accepted(patterns, path),
{
}

/// Every selected path is the path of an entry of the walk that is a
/// regular file and that the patterns select: no directory is selected.
pub proof fn lemma_selected_is_regular_file(
    items: Seq<WalkItem>,
    patterns: Seq<Seq<char>>,
    j: int,
) -> (i: int)
    requires
        0 <= j < selection(items, patterns).len(),
    ensures
        0 <= i < items.len(),
        chosen(items[i], patterns) == Some(selection(items, patterns)[j]),
        ({
            &&& items[i] matches WalkItem::Entry { path, is_file }
            &&& is_file
            &&& path@ == selection(items, patterns)[j]
            &&& accepted(patterns, path@)
        }),
    decreases items.len(),
{
    let front = items.drop_last();
    if j < selection(front, patterns).len() {
        let i = lemma_selected_is_regular_file(front, patterns, j);
        assert(front[i] == items[i]);
        i
    } else {
        items.len() - 1
    }
}

/// Every regular file of the walk that the patterns select is in the
/// selection.
pub proof fn lemma_chosen_is_selected(
    items: Seq<WalkItem>,
    patterns: Seq<Seq<char>>,
    i: int,
) -> (j: int)
    requires
        0 <= i < items.len(),
        chosen(items[i], patterns) is Some,
    ensures
        0 <= j < selection(items, patterns).len(),
        Some(selection(items, patterns)[j]) == chosen(items[i], patterns),
    decreases items.len(),
{
    let front = items.drop_last();
    if i < front.len() {
        assert(front[i] == items[i]);
        lemma_chosen_is_selected(front, patterns, i)
    } else {
        selection(front, patterns).len() as int
    }
}

/// The selection keeps the order of the walk: of two selected paths, the
/// earlier one comes from an earlier item.
pub proof fn lemma_selection_follows_walk(
    items: Seq<WalkItem>,
    patterns: Seq<Seq<char>>,
    a: int,
    b: int,
) -> (origin: (int, int))
    requires
        0 <= a < b < selection(items, patterns).len(),
    ensures
        0 <= origin.0 < origin.1 < items.len(),
        chosen(items[origin.0], patterns) == Some(selection(items, patterns)[a]),
        chosen(items[origin.1], patterns) == Some(selection(items, patterns)[b]),
    decreases items.len(),
{
    let front = items.drop_last();
    if b < selection(front, patterns).len() {
        let origin = lemma_selection_follows_walk(front, patterns, a, b);
        assert(front[origin.0] == items[origin.0]);
        assert(front[origin.1] == items[origin.1]);
        origin
    } else {
        let i = lemma_selected_is_regular_file(front, patterns, a);
        assert(front[i] == items[i]);
        (i, items.len() - 1)
    }
}

/// Where the walk reported no path twice, no path is selected twice.
pub proof fn lemma_selection_has_no_duplicates(items: Seq<WalkItem>, patterns: Seq<Seq<char>>)
    requires
        distinct_entries(items),
    ensures
        selection(items, patterns).no_duplicates(),
{
    let paths = selection(items, patterns);
    assert forall|a: int, b: int| 0 <= a < b < paths.len() implies paths[a] != paths[b] by {
        let origin = lemma_selection_follows_walk(items, patterns, a, b);
        assert(entry_path(items[origin.0]) == Some(paths[a]));
        assert(entry_path(items[origin.1]) == Some(paths[b]));
    }
}

} // verus!
