//! Source text and the removal of block comments.
use vstd::prelude::*;

use crate::lexer::{chars_of, push_char, skip_block_comment};
use crate::lexical::{block_comment_len, lemma_block_comment_bound};

verus! {

/// The text `s` from index `i` on with each block comment removed: `/*` through the first
/// `*/` after it, or through the end where none follows. Comments do not nest.
pub open spec fn stripped(s: Seq<char>, i: int) -> Seq<char>
    decreases s.len() - i,
{
    if i < 0 || i >= s.len() {
        Seq::empty()
    } else if s[i] == '/' && i + 1 < s.len() && s[i + 1] == '*' {
        proof {
            lemma_block_comment_bound(s, i + 2);
        }
        stripped(s, i + 2 + block_comment_len(s, i + 2))
    } else {
        seq![s[i]] + stripped(s, i + 1)
    }
}

/// Source text loaded for compiling.
pub struct File {
    pub buf: String,
}

impl File {
    /// Removes every block comment `/* ... */` from `s`. Comments may span lines and do not
    /// nest; an unterminated comment runs to the end of the text.
    pub fn strip_block_comments(s: String) -> (r: String)
        ensures
            r@ == stripped(s@, 0),
    {
        let chars = chars_of(s.as_str());
        let n = chars.len();
        let mut processed = String::new();
        let mut pos: usize = 0;
        while pos < n
            invariant
                n == chars@.len(),
                chars@ == s@,
                pos <= n,
                stripped(s@, 0) == processed@ + stripped(s@, pos as int),
            decreases n - pos,
        {
            let ghost before = processed@;
            if chars[pos] == '/' && pos + 1 < n && chars[pos + 1] == '*' {
                proof {
                    lemma_block_comment_bound(s@, pos + 2);
                }
                pos = skip_block_comment(&chars, pos + 2);
            } else {
                push_char(&mut processed, chars[pos]);
                pos = pos + 1;
                assert(before + (seq![chars@[pos - 1]] + stripped(s@, pos as int)) =~= processed@
                    + stripped(s@, pos as int));
            }
        }
        assert(processed@ + Seq::<char>::empty() =~= processed@);
        processed
    }
}

} // verus!
