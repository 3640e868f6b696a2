//! Extraction of a fenced Lua code block from a chat message.

use vstd::prelude::*;
use vstd::string::StrSliceExecFns;
use crate::text::{chars_of, find_from, first_from, occurs_at};

verus! {

/// The opening fence of a Lua block: three backticks, `lua` and a newline.
pub open spec fn fence_open() -> Seq<char> {
    seq!['`', '`', '`', 'l', 'u', 'a', '\n']
}

/// The closing fence: a newline and three backticks.
pub open spec fn fence_close() -> Seq<char> {
    seq!['\n', '`', '`', '`']
}

/// The body of the first fenced Lua block of `code`: what lies between the
/// first opening fence and the first closing fence after it. `None` when
/// either fence is missing.
pub open spec fn lua_block(code: Seq<char>) -> Option<Seq<char>> {
    if exists|a: int| first_from(code, fence_open(), 0, a) {
        let a = choose|a: int| first_from(code, fence_open(), 0, a);
        let start = a + fence_open().len();
        if exists|b: int| first_from(code, fence_close(), start, b) {
            let b = choose|b: int| first_from(code, fence_close(), start, b);
            Some(code.subrange(start, b))
        } else {
            None
        }
    } else {
        None
    }
}

/// Finds a fenced Lua block in `code` and returns the text between the
/// fences, or `None` when `code` holds no opening fence or no closing fence
/// after it.
pub fn parse_markdown_lua_block(code: &str) -> (block: Option<&str>)
    ensures
        match block {
            Some(body) => lua_block(code@) == Some(body@),
            None => lua_block(code@) is None,
        },
{
    let chars = chars_of(code);
    let open: Vec<char> = vec!['`', '`', '`', 'l', 'u', 'a', '\n'];
    let close: Vec<char> = vec!['\n', '`', '`', '`'];
    assert(open@ =~= fence_open());
    assert(close@ =~= fence_close());
    let a: usize = match find_from(&chars, &open, 0) {
        Some(a) => a,
        None => {
            return None;
        },
    };
    let total: usize = chars.len();
    assert(a + open@.len() <= total);
    let start: usize = a + open.len();
    proof {
        assert forall|a2: int| first_from(code@, fence_open(), 0, a2) implies a2 == a by {
            if a2 < a {
                assert(!occurs_at(code@, fence_open(), a2));
            }
        }
    }
    let b: usize = match find_from(&chars, &close, start) {
        Some(b) => b,
        None => {
            return None;
        },
    };
    proof {
        assert forall|b2: int| first_from(code@, fence_close(), start as int, b2) implies b2
            == b by {
            if b2 < b {
                assert(!occurs_at(code@, fence_close(), b2));
            }
        }
    }
    Some(code.substring_char(start, b))
}

} // verus!
