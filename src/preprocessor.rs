//! Removal of directive lines before lexing.
use vstd::prelude::*;

use crate::lexer::{chars_of, push_char};
use crate::source::File;

verus! {

/// The length of the line that starts at `i`, its newline included.
pub open spec fn line_len(s: Seq<char>, i: int) -> nat
    decreases s.len() - i,
{
    if i < 0 || i >= s.len() {
        0
    } else if s[i] == '\n' {
        1
    } else {
        1 + line_len(s, i + 1)
    }
}

pub proof fn lemma_line_len_bound(s: Seq<char>, i: int)
    requires
        0 <= i <= s.len(),
    ensures
        i + line_len(s, i) <= s.len(),
        i < s.len() ==> line_len(s, i) >= 1,
    decreases s.len() - i,
{
    if i < s.len() {
        lemma_line_len_bound(s, i + 1);
    }
}

/// The text from the line start `i` on, without the lines that begin with `#`.
pub open spec fn without_directives(s: Seq<char>, i: int) -> Seq<char>
    decreases s.len() - i,
{
    if i < 0 || i >= s.len() {
        Seq::empty()
    } else {
        proof {
            lemma_line_len_bound(s, i);
        }
        let n = line_len(s, i);
        if s[i] == '#' {
            without_directives(s, i + n)
        } else {
            s.subrange(i, i + n) + without_directives(s, i + n)
        }
    }
}

/// Removes the lines of the file that begin with `#`, each with its newline.
pub fn preprocess(file: &mut File)
    ensures
        final(file).buf@ == without_directives(old(file).buf@, 0),
{
    let ghost s = file.buf@;
    let chars = chars_of(file.buf.as_str());
    let n = chars.len();
    let mut kept = String::new();
    let mut pos: usize = 0;
    while pos < n
        invariant
            n == chars@.len(),
            chars@ == s,
            pos <= n,
            without_directives(s, 0) == kept@ + without_directives(s, pos as int),
        decreases n - pos,
    {
        proof {
            lemma_line_len_bound(s, pos as int);
        }
        let start = pos;
        let directive = chars[start] == '#';
        let ghost before = kept@;
        let mut done = false;
        while !done
            invariant
                n == chars@.len(),
                chars@ == s,
                start < n,
                start < pos <= n || (pos == start && !done),
                start + line_len(s, start as int) == pos + line_len(s, pos as int) || done,
                done ==> pos == start + line_len(s, start as int),
                directive ==> kept@ == before,
                !directive ==> kept@ == before + s.subrange(start as int, pos as int),
            decreases n - pos + (if done { 0int } else { 1int }),
        {
            if pos >= n {
                done = true;
            } else {
                let c = chars[pos];
                if !directive {
                    push_char(&mut kept, c);
                }
                pos = pos + 1;
                if c == '\n' {
                    done = true;
                }
                proof {
                    if !directive {
                        assert(kept@ =~= before + s.subrange(start as int, pos as int));
                    }
                }
            }
        }
        proof {
            if !directive {
                assert(before + (s.subrange(start as int, pos as int) + without_directives(
                    s,
                    pos as int,
                )) =~= kept@ + without_directives(s, pos as int));
            }
        }
    }
    assert(kept@ + Seq::<char>::empty() =~= kept@);
    file.buf = kept;
}

} // verus!
