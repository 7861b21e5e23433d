//! The connection reader's logic: each line read from the connection is
//! trimmed and appended to the header block, and reading stops at the first
//! line that is empty after trimming (the header/body boundary) or when the
//! stream closes. The reading itself is I/O and stays outside the library;
//! what stands here is every decision the reader makes.

use vstd::prelude::*;

verus! {

/// A character that counts as trailing whitespace on a header line.
pub open spec fn is_ws(c: char) -> bool {
    c == ' ' || c == '\t' || c == '\r' || c == '\n'
}

/// `s` with every trailing whitespace character removed.
pub open spec fn spec_trim_end(s: Seq<char>) -> Seq<char>
    decreases s.len(),
{
    if s.len() > 0 && is_ws(s.last()) {
        spec_trim_end(s.drop_last())
    } else {
        s
    }
}

/// The lines of a vector of strings, as sequences of characters.
pub open spec fn lines_view(v: Seq<String>) -> Seq<Seq<char>> {
    v.map_values(|s: String| s@)
}

/// The header block that reading `lines` produces: the trimmed lines up to
/// and including the first one that trims to empty; all of them if none
/// does (the stream closed before the blank line arrived).
pub open spec fn spec_header_block(lines: Seq<Seq<char>>) -> Seq<Seq<char>>
    decreases lines.len(),
{
    if lines.len() == 0 {
        Seq::empty()
    } else if spec_trim_end(lines[0]).len() == 0 {
        seq![spec_trim_end(lines[0])]
    } else {
        seq![spec_trim_end(lines[0])] + spec_header_block(lines.drop_first())
    }
}

fn is_ws_char(c: char) -> (r: bool)
    ensures
        r == is_ws(c),
{
    c == ' ' || c == '\t' || c == '\r' || c == '\n'
}

/// One line as the reader returns it: trailing whitespace removed.
pub fn trim_line_end(line: &str) -> (r: String)
    ensures
        r@ == spec_trim_end(line@),
{
    let len = line.unicode_len();
    let mut end = len;
    proof {
        assert(line@.take(len as int) =~= line@);
    }
    while end > 0 && is_ws_char(line.get_char(end - 1))
        invariant
            end <= len,
            len == line@.len(),
            spec_trim_end(line@) == spec_trim_end(line@.take(end as int)),
        decreases end,
    {
        proof {
            let t = line@.take(end as int);
            assert(t.last() == line@[end - 1]);
            assert(t.drop_last() =~= line@.take(end as int - 1));
        }
        end = end - 1;
    }
    proof {
        let t = line@.take(end as int);
        if end > 0 {
            assert(t.last() == line@[end - 1]);
        }
        assert(spec_trim_end(t) == t);
    }
    let r = line.substring_char(0, end).to_owned();
    proof {
        assert(line@.subrange(0, end as int) =~= line@.take(end as int));
    }
    r
}

/// One step of the connection reader: append the trimmed line to the header
/// block. The result says whether reading is done: it is exactly when the
/// trimmed line is empty, which marks the header/body boundary.
pub fn push_line(headers: &mut Vec<String>, line: &str) -> (done: bool)
    ensures
        lines_view(final(headers)@) == lines_view(old(headers)@).push(spec_trim_end(line@)),
        done == (spec_trim_end(line@).len() == 0),
{
    let t = trim_line_end(line);
    let done = t.as_str().is_empty();
    headers.push(t);
    proof {
        assert(lines_view(headers@) =~= lines_view(old(headers)@).push(spec_trim_end(line@)));
    }
    done
}

/// The whole header block that a given sequence of incoming lines produces,
/// as the read loop accumulates it: every line trimmed, stopping after the
/// first one that trims to empty.
pub fn header_block_from_lines(lines: &Vec<String>) -> (r: Vec<String>)
    ensures
        lines_view(r@) == spec_header_block(lines_view(lines@)),
{
    let mut r: Vec<String> = Vec::new();
    let mut i: usize = 0;
    proof {
        let lv = lines_view(lines@);
        assert(lines_view(r@) =~= Seq::<Seq<char>>::empty());
        assert(lines_view(r@) + lv.skip(0) =~= lv);
    }
    while i < lines.len()
        invariant
            i <= lines@.len(),
            spec_header_block(lines_view(lines@)) == lines_view(r@) + spec_header_block(
                lines_view(lines@).skip(i as int),
            ),
        decreases lines@.len() - i,
    {
        let done = push_line(&mut r, lines[i].as_str());
        proof {
            let lv = lines_view(lines@);
            assert(lv[i as int] == lines@[i as int]@);
            assert(lv.skip(i as int)[0] == lv[i as int]);
            assert(lv.skip(i as int).drop_first() =~= lv.skip(i as int + 1));
        }
        if done {
            proof {
                let lv = lines_view(lines@);
                assert(spec_header_block(lv.skip(i as int)) =~= seq![
                    spec_trim_end(lv[i as int]),
                ]);
                assert(spec_header_block(lv) =~= lines_view(r@));
            }
            return r;
        }
        i = i + 1;
    }
    proof {
        let lv = lines_view(lines@);
        assert(lv.skip(i as int) =~= Seq::<Seq<char>>::empty());
        assert(spec_header_block(lv) =~= lines_view(r@));
    }
    r
}

} // verus!
