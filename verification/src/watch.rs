//! The watch set: the paths, read from a newline-delimited text, whose
//! changes make the utility run again.

use crate::error::{EntrError, Failure};
use crate::text::{
    characters, is_blank, is_space, is_trimmed, lemma_line_len_at, lemma_trim_is_trimmed,
    line_len, lines, text_of, trim, trim_bounds,
};
use vstd::prelude::*;

verus! {

/// The test that keeps a line: it is not blank.
pub open spec fn non_blank() -> spec_fn(Seq<char>) -> bool {
    |line: Seq<char>| !is_blank(line)
}

/// What becomes of a line that is kept: it is trimmed.
pub open spec fn trimming() -> spec_fn(Seq<char>) -> Seq<char> {
    |line: Seq<char>| trim(line)
}

/// The paths that a sequence of lines names: each line that is not blank,
/// trimmed, in the order of the lines.
pub open spec fn paths_of(lines: Seq<Seq<char>>) -> Seq<Seq<char>> {
    lines.filter(non_blank()).map_values(trimming())
}

/// The paths that an input names: those of its lines.
pub open spec fn watch_list(input: Seq<char>) -> Seq<Seq<char>> {
    paths_of(lines(input))
}

/// What holds of every watch set: it names at least one path, and each path
/// is trimmed and not empty.
pub open spec fn is_watch_list(paths: Seq<Seq<char>>) -> bool {
    &&& paths.len() > 0
    &&& forall|i: int|
        0 <= i < paths.len() ==> (#[trigger] paths[i]).len() > 0 && is_trimmed(paths[i])
}

/// One more line adds its path, if it has one, behind the others.
pub proof fn lemma_paths_of_push(lines: Seq<Seq<char>>, line: Seq<char>)
    ensures
        paths_of(lines.push(line)) == if is_blank(line) {
            paths_of(lines)
        } else {
            paths_of(lines).push(trim(line))
        },
{
    lines.lemma_filter_push(line, non_blank());
    if !is_blank(line) {
        assert(lines.filter(non_blank()).push(line).map_values(trimming()) =~= lines.filter(
            non_blank(),
        ).map_values(trimming()).push(trim(line)));
    }
}

/// Every path that a sequence of lines names is trimmed and not empty.
pub proof fn lemma_paths_of_entries(lines: Seq<Seq<char>>)
    ensures
        forall|i: int|
            0 <= i < paths_of(lines).len() ==> (#[trigger] paths_of(lines)[i]).len() > 0
                && is_trimmed(paths_of(lines)[i]),
{
    let kept = lines.filter(non_blank());
    assert forall|i: int| 0 <= i < paths_of(lines).len() implies (#[trigger] paths_of(
        lines,
    )[i]).len() > 0 && is_trimmed(paths_of(lines)[i]) by {
        lines.lemma_filter_pred(non_blank(), i);
        lemma_trim_is_trimmed(kept[i]);
    }
}

/// Every line that is kept stands among the lines.
proof fn lemma_kept_source(lines: Seq<Seq<char>>, i: int)
    requires
        0 <= i < lines.filter(non_blank()).len(),
    ensures
        exists|p: int| 0 <= p < lines.len() && lines.filter(non_blank())[i] == #[trigger] lines[p],
    decreases lines.len(),
{
    reveal(Seq::filter);
    let rest = lines.drop_last();
    if i < rest.filter(non_blank()).len() {
        lemma_kept_source(rest, i);
        let p = choose|p: int|
            0 <= p < rest.len() && rest.filter(non_blank())[i] == #[trigger] rest[p];
        assert(lines[p] == rest[p]);
    } else {
        assert(lines.filter(non_blank())[i] == lines[lines.len() - 1]);
    }
}

/// Of two lines that are kept, the one that comes first among the kept
/// lines comes first among the lines.
proof fn lemma_kept_in_order(lines: Seq<Seq<char>>, i: int, j: int)
    requires
        0 <= i < j < lines.filter(non_blank()).len(),
    ensures
        exists|p: int, q: int|
            0 <= p < q < lines.len() && lines.filter(non_blank())[i] == #[trigger] lines[p]
                && lines.filter(non_blank())[j] == #[trigger] lines[q],
    decreases lines.len(),
{
    reveal(Seq::filter);
    let rest = lines.drop_last();
    if j < rest.filter(non_blank()).len() {
        lemma_kept_in_order(rest, i, j);
        let (p, q) = choose|p: int, q: int|
            0 <= p < q < rest.len() && rest.filter(non_blank())[i] == #[trigger] rest[p]
                && rest.filter(non_blank())[j] == #[trigger] rest[q];
        assert(lines[p] == rest[p] && lines[q] == rest[q]);
    } else {
        lemma_kept_source(rest, i);
        let p = choose|p: int|
            0 <= p < rest.len() && rest.filter(non_blank())[i] == #[trigger] rest[p];
        let q = lines.len() - 1;
        assert(lines[p] == rest[p]);
        assert(lines.filter(non_blank())[j] == lines[q]);
    }
}

/// The paths stand in the order of their lines: of two paths, the one that
/// comes first is the trimmed text of a line that comes first, and neither
/// line is blank.
pub proof fn law_paths_in_order(input: Seq<char>, i: int, j: int)
    requires
        0 <= i < j < watch_list(input).len(),
    ensures
        exists|p: int, q: int|
            0 <= p < q < lines(input).len() && watch_list(input)[i] == trim(
                #[trigger] lines(input)[p],
            ) && watch_list(input)[j] == trim(#[trigger] lines(input)[q]) && !is_blank(
                lines(input)[p],
            ) && !is_blank(lines(input)[q]),
{
    let all = lines(input);
    let kept = all.filter(non_blank());
    lemma_kept_in_order(all, i, j);
    let (p, q) = choose|p: int, q: int|
        0 <= p < q < all.len() && kept[i] == #[trigger] all[p] && kept[j] == #[trigger] all[q];
    all.lemma_filter_pred(non_blank(), i);
    all.lemma_filter_pred(non_blank(), j);
    assert(watch_list(input)[i] == trim(all[p]));
    assert(watch_list(input)[j] == trim(all[q]));
}

/// There are as many paths as lines that are not blank.
pub proof fn law_paths_counted(input: Seq<char>)
    ensures
        watch_list(input).len() == lines(input).filter(non_blank()).len(),
        watch_list(input).len() <= lines(input).len(),
{
    lines(input).lemma_filter_len(non_blank());
}

/// The line feed that ends the first line stands right behind it.
pub proof fn lemma_line_len_stops(s: Seq<char>)
    ensures
        line_len(s) <= s.len(),
        forall|i: int| 0 <= i < line_len(s) ==> #[trigger] s[i] != '\n',
        line_len(s) < s.len() ==> s[line_len(s) as int] == '\n',
    decreases s.len(),
{
    if s.len() > 0 && s.first() != '\n' {
        let rest = s.drop_first();
        lemma_line_len_stops(rest);
        assert forall|i: int| 0 <= i < line_len(s) implies #[trigger] s[i] != '\n' by {
            if i > 0 {
                assert(s[i] == rest[i - 1]);
            }
        }
    }
}

/// An input names no path exactly when it is blank: empty, or white space
/// all through.
pub proof fn lemma_no_paths_iff_blank(input: Seq<char>)
    ensures
        watch_list(input).len() == 0 <==> is_blank(input),
    decreases input.len(),
{
    lemma_line_len_stops(input);
    let n = line_len(input) as int;
    let none = Seq::<Seq<char>>::empty();
    if n >= input.len() {
        assert(lines(input) =~= none.push(input));
        lemma_paths_of_push(none, input);
        assert(none.filter(non_blank()) =~= none) by {
            none.lemma_filter_len(non_blank());
        }
        lemma_trim_is_trimmed(input);
    } else {
        let head = input.take(n);
        let tail = input.skip(n + 1);
        lemma_no_paths_iff_blank(tail);
        let first = none.push(head);
        assert(seq![head] =~= first);
        Seq::filter_distributes_over_add(first, lines(tail), non_blank());
        lemma_paths_of_push(none, head);
        assert(none.filter(non_blank()) =~= none) by {
            none.lemma_filter_len(non_blank());
        }
        lemma_trim_is_trimmed(head);
        assert(paths_of(lines(input)).len() == paths_of(first).len() + paths_of(lines(tail)).len());
        if is_blank(input) {
            assert forall|i: int| 0 <= i < head.len() implies is_space(#[trigger] head[i]) by {
                assert(head[i] == input[i]);
            }
            assert forall|i: int| 0 <= i < tail.len() implies is_space(#[trigger] tail[i]) by {
                assert(tail[i] == input[n + 1 + i]);
            }
        }
        if is_blank(head) && is_blank(tail) {
            assert forall|i: int| 0 <= i < input.len() implies is_space(#[trigger] input[i]) by {
                if i < n {
                    assert(input[i] == head[i]);
                } else if i > n {
                    assert(input[i] == tail[i - n - 1]);
                }
            }
        }
    }
}

/// A line that a line feed ends is followed by the lines of what stands
/// behind that line feed.
pub proof fn lemma_lines_next(s: Seq<char>, start: int, end: int)
    requires
        0 <= start <= end < s.len(),
        forall|i: int| start <= i < end ==> #[trigger] s[i] != '\n',
        s[end] == '\n',
    ensures
        lines(s.skip(start)) == seq![s.subrange(start, end)] + lines(s.skip(end + 1)),
{
    let t = s.skip(start);
    assert forall|i: int| 0 <= i < end - start implies #[trigger] t[i] != '\n' by {
        assert(t[i] == s[start + i]);
    }
    lemma_line_len_at(t, end - start);
    assert(t.take(end - start) =~= s.subrange(start, end));
    assert(t.skip(end - start + 1) =~= s.skip(end + 1));
}

/// What holds no line feed is one line.
pub proof fn lemma_lines_last(s: Seq<char>, start: int)
    requires
        0 <= start <= s.len(),
        forall|i: int| start <= i < s.len() ==> #[trigger] s[i] != '\n',
    ensures
        lines(s.skip(start)) == seq![s.skip(start)],
{
    let t = s.skip(start);
    assert forall|i: int| 0 <= i < t.len() implies #[trigger] t[i] != '\n' by {
        assert(t[i] == s[start + i]);
    }
    lemma_line_len_at(t, t.len() as int);
}

/// The paths to watch: at least one, each of them trimmed and not empty, in
/// the order in which the input named them.
pub struct WatchSet {
    paths: Vec<String>,
}

impl View for WatchSet {
    type V = Seq<Seq<char>>;

    closed spec fn view(&self) -> Seq<Seq<char>> {
        self.paths.deep_view()
    }
}

impl WatchSet {
    #[verifier::type_invariant]
    spec fn well_formed(&self) -> bool {
        is_watch_list(self.paths.deep_view())
    }

    /// Reads the watch set from a newline-delimited text. Each line is
    /// trimmed, and a line that is blank names nothing. An input that names
    /// no path at all, which is one that is empty or blank, has no watch set.
    pub fn collect(input: &str) -> (found: Result<WatchSet, EntrError>)
        ensures
            found is Err <==> is_blank(input@),
            found matches Ok(set) ==> set@ == watch_list(input@) && is_watch_list(set@)
                && set@.len() == lines(input@).filter(non_blank()).len(),
            found matches Err(error) ==> error@ == Failure::NoFilesToWatch,
    {
        let chars = characters(input);
        let n = chars.len();
        let mut paths: Vec<String> = Vec::new();
        let ghost mut done: Seq<Seq<char>> = Seq::empty();
        let mut start: usize = 0;
        let mut i: usize = 0;
        proof {
            assert(chars@.skip(0) =~= chars@);
            assert(done + lines(chars@) =~= lines(chars@));
            assert(done.filter(non_blank()) =~= done) by {
                done.lemma_filter_len(non_blank());
            }
            assert(paths.deep_view() =~= paths_of(done));
        }
        while i < n
            invariant
                start <= i <= n == chars.len(),
                forall|k: int| start <= k < i ==> #[trigger] chars@[k] != '\n',
                lines(chars@) == done + lines(chars@.skip(start as int)),
                paths.deep_view() == paths_of(done),
            decreases n - i,
        {
            if chars[i] == '\n' {
                let ghost line = chars@.subrange(start as int, i as int);
                let (a, b) = trim_bounds(&chars, start, i);
                proof {
                    lemma_lines_next(chars@, start as int, i as int);
                    lemma_paths_of_push(done, line);
                    lemma_trim_is_trimmed(line);
                    assert(done + (seq![line] + lines(chars@.skip(i + 1))) =~= done.push(line)
                        + lines(chars@.skip(i + 1)));
                }
                if a < b {
                    let ghost before = paths.deep_view();
                    let path = text_of(&chars, a, b);
                    paths.push(path);
                    assert(paths.deep_view() =~= before.push(trim(line)));
                }
                proof {
                    done = done.push(line);
                }
                start = i + 1;
            }
            i += 1;
        }
        let ghost line = chars@.skip(start as int);
        let (a, b) = trim_bounds(&chars, start, n);
        proof {
            assert(chars@.subrange(start as int, n as int) =~= line);
            lemma_lines_last(chars@, start as int);
            lemma_paths_of_push(done, line);
            lemma_trim_is_trimmed(line);
            assert(done + seq![line] =~= done.push(line));
        }
        if a < b {
            let ghost before = paths.deep_view();
            let path = text_of(&chars, a, b);
            paths.push(path);
            assert(paths.deep_view() =~= before.push(trim(line)));
        }
        proof {
            lemma_no_paths_iff_blank(input@);
            lemma_paths_of_entries(lines(input@));
        }
        if paths.len() == 0 {
            Err(EntrError::NoFilesToWatch)
        } else {
            Ok(WatchSet { paths })
        }
    }

    /// How many paths the set names.
    pub fn len(&self) -> (n: usize)
        ensures
            n == self@.len(),
            n > 0,
    {
        proof {
            use_type_invariant(self);
        }
        self.paths.len()
    }

    /// The paths of the set, in order.
    pub fn paths(&self) -> (paths: &Vec<String>)
        ensures
            paths.deep_view() == self@,
            is_watch_list(self@),
    {
        proof {
            use_type_invariant(self);
        }
        &self.paths
    }
}

} // verus!
