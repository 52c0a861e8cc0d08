use vstd::prelude::*;
use vstd::string::{StringExecFns, StrSliceExecFns};

verus! {

/// Lines joined back together with a newline between each pair.
pub open spec fn joined_lines(ls: Seq<Seq<char>>) -> Seq<char>
    decreases ls.len(),
{
    if ls.len() == 0 {
        Seq::empty()
    } else if ls.len() == 1 {
        ls[0]
    } else {
        joined_lines(ls.drop_last()) + seq!['\n'] + ls.last()
    }
}

/// Character-for-character string equality.
pub fn str_eq(a: &str, b: &str) -> (r: bool)
    ensures
        r == (a@ == b@),
{
    let n = a.unicode_len();
    let m = b.unicode_len();
    if n != m {
        proof {
            assert(a@ != b@);
        }
        return false;
    }
    let mut i: usize = 0;
    while i < n
        invariant
            n == a@.len(),
            n == b@.len(),
            i <= n,
            forall|j: int| 0 <= j < i ==> a@[j] == b@[j],
        decreases n - i,
    {
        if a.get_char(i) != b.get_char(i) {
            return false;
        }
        i = i + 1;
    }
    proof {
        assert(a@ =~= b@);
    }
    true
}

/// Split text on newline characters into its ordered sequence of lines.
///
/// There is always at least one line; empty lines are kept, so the text
/// is exactly the lines joined back with newlines, and no line contains a
/// newline itself.
pub fn split_lines(text: &str) -> (lines: Vec<String>)
    ensures
        lines@.len() >= 1,
        joined_lines(lines.deep_view()) == text@,
        forall|i: int| 0 <= i < lines@.len() ==> !(#[trigger] lines@[i])@.contains('\n'),
{
    let n = text.unicode_len();
    let mut lines: Vec<String> = Vec::new();
    let mut start: usize = 0;
    let mut i: usize = 0;
    while i < n
        invariant
            n == text@.len(),
            start <= i <= n,
            forall|j: int| 0 <= j < lines@.len() ==> !(#[trigger] lines@[j])@.contains('\n'),
            lines@.len() == 0 ==> start == 0,
            lines@.len() > 0 ==> text@.take(start as int) == joined_lines(lines.deep_view())
                + seq!['\n'],
            forall|j: int| start <= j < i ==> text@[j] != '\n',
        decreases n - i,
    {
        let c = text.get_char(i);
        if c == '\n' {
            let line = text.substring_char(start, i);
            let ghost old_lines = lines.deep_view();
            lines.push(String::from_str(line));
            proof {
                let new_lines = lines.deep_view();
                assert(new_lines =~= old_lines.push(line@));
                assert(line@ == text@.subrange(start as int, i as int));
                assert forall|j: int| 0 <= j < new_lines.len() implies !(#[trigger] new_lines[j]).contains(
                    '\n',
                ) by {
                    if j < old_lines.len() {
                        assert(!old_lines[j].contains('\n'));
                    } else {
                        assert(new_lines[j] == line@);
                        assert forall|q: int| 0 <= q < line@.len() implies line@[q] != '\n' by {
                            assert(text@[start + q] != '\n');
                        }
                        assert(!line@.contains('\n'));
                    }
                }
                if old_lines.len() == 0 {
                    assert(joined_lines(new_lines) == line@);
                    assert(text@.take(i + 1 as int) =~= line@ + seq!['\n']);
                } else {
                    assert(new_lines.drop_last() =~= old_lines);
                    assert(joined_lines(new_lines) == joined_lines(old_lines) + seq!['\n']
                        + line@);
                    assert(text@.take(i + 1 as int) =~= text@.take(start as int) + line@
                        + seq!['\n']);
                }
            }
            start = i + 1;
        }
        i = i + 1;
    }
    let last = text.substring_char(start, n);
    let ghost old_lines = lines.deep_view();
    lines.push(String::from_str(last));
    proof {
        let new_lines = lines.deep_view();
        assert(new_lines =~= old_lines.push(last@));
        assert(last@ == text@.subrange(start as int, n as int));
        assert forall|j: int| 0 <= j < new_lines.len() implies !(#[trigger] new_lines[j]).contains(
            '\n',
        ) by {
            if j < old_lines.len() {
                assert(!old_lines[j].contains('\n'));
            } else {
                assert(new_lines[j] == last@);
                assert forall|q: int| 0 <= q < last@.len() implies last@[q] != '\n' by {
                    assert(text@[start + q] != '\n');
                }
                assert(!last@.contains('\n'));
            }
        }
        if old_lines.len() == 0 {
            assert(joined_lines(new_lines) == last@);
            assert(text@ =~= last@);
        } else {
            assert(new_lines.drop_last() =~= old_lines);
            assert(joined_lines(new_lines) == joined_lines(old_lines) + seq!['\n'] + last@);
            assert(text@ =~= text@.take(start as int) + last@);
        }
    }
    lines
}

} // verus!
