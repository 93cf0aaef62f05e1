//! The data model of the chat-completion client and the pure pieces of its
//! logic: picking the server-sent-event payloads out of a response body,
//! checking a cached API token's freshness, and selecting the stored OAuth
//! token. The HTTP traffic itself stays with the caller.

use vstd::prelude::*;

use crate::strutil::{slice_chars, str_starts_with, tail_from};

verus! {

/// Who wrote a chat message.
#[derive(Clone, Copy, Debug, Eq, PartialEq, Structural)]
pub enum Role {
    User,
    Assistant,
    System,
}

/// One message of a chat conversation.
#[derive(Debug)]
pub struct ChatMessage {
    pub role: Role,
    pub content: String,
}

/// A chat model: its identifier and whether it streams responses.
#[derive(Debug)]
pub struct Model {
    pub id: String,
    pub streaming: bool,
}

/// The response to creating a conversation thread.
#[derive(Debug)]
pub struct CreateThreadResponse {
    pub thread_id: String,
}

/// The index of the first line break at or after `from`, or the length when
/// the rest has none.
pub open spec fn first_nl_at(s: Seq<char>, from: int) -> int
    decreases s.len() - from,
{
    if from < 0 || from >= s.len() {
        s.len() as int
    } else if s[from] == '\n' {
        from
    } else {
        first_nl_at(s, from + 1)
    }
}

/// The payload a line contributes: the rest of a `data: ` line, nothing
/// otherwise.
pub open spec fn line_datum(line: Seq<char>) -> Seq<Seq<char>> {
    if "data: "@.is_prefix_of(line) {
        seq![line.skip("data: "@.len() as int)]
    } else {
        Seq::<Seq<char>>::empty()
    }
}

/// The server-sent-event payloads of a response body: for each line that
/// starts with `data: `, what follows that prefix, in order.
pub open spec fn data_lines_of(s: Seq<char>) -> Seq<Seq<char>>
    decreases s.len(),
{
    let e = first_nl_at(s, 0);
    if 0 <= e < s.len() {
        line_datum(s.take(e)) + data_lines_of(s.skip(e + 1))
    } else {
        line_datum(s)
    }
}

/// `first_nl_at` is characterized by "no line break before `k`, one at `k`
/// unless the text ends there".
proof fn lemma_first_nl_at(s: Seq<char>, from: int, k: int)
    requires
        0 <= from <= k <= s.len(),
        forall|j: int| from <= j < k ==> s[j] != '\n',
        k < s.len() ==> s[k] == '\n',
    ensures
        first_nl_at(s, from) == if k < s.len() {
            k
        } else {
            s.len() as int
        },
    decreases k - from,
{
    if from < k {
        lemma_first_nl_at(s, from + 1, k);
    }
}

/// Extracts the `data: ` payloads of `text`, line by line.
pub fn extract_data_lines(text: &str) -> (r: Vec<String>)
    ensures
        r@.map_values(|s: String| s@) == data_lines_of(text@),
{
    proof {
        reveal_strlit("data: ");
    }
    let mut out: Vec<String> = Vec::new();
    let n = text.unicode_len();
    let mut start: usize = 0;
    proof {
        assert(text@.skip(0) =~= text@);
    }
    loop
        invariant_except_break
            n == text@.len(),
            start <= n,
            out@.map_values(|s: String| s@) + data_lines_of(text@.skip(start as int))
                == data_lines_of(text@),
        ensures
            out@.map_values(|s: String| s@) == data_lines_of(text@),
        decreases n - start,
    {
        proof {
            reveal_strlit("data: ");
        }
        let ghost rem = text@.skip(start as int);
        let ghost old_out = out@;
        // Find the end of the current line.
        let mut e: usize = start;
        while e < n && text.get_char(e) != '\n'
            invariant
                n == text@.len(),
                start <= e <= n,
                forall|j: int| start <= j < e ==> text@[j] != '\n',
            decreases n - e,
        {
            e = e + 1;
        }
        proof {
            assert forall|j: int| 0 <= j < e - start implies rem[j] != '\n' by {
                assert(rem[j] == text@[start + j]);
            }
            if e < n {
                assert(rem[e - start] == text@[e as int]);
            }
            lemma_first_nl_at(rem, 0, e - start);
        }
        let line = slice_chars(text, start, e);
        proof {
            assert(line@ =~= rem.take(e - start));
            if e == n {
                assert(rem.take(e - start) =~= rem);
            }
        }
        if str_starts_with(line.as_str(), "data: ") {
            let datum = tail_from(line.as_str(), 6);
            out.push(datum);
            proof {
                assert(line_datum(line@) =~= seq![line@.skip(6)]);
                assert(out@.map_values(|s: String| s@) =~= old_out.map_values(|s: String| s@)
                    + line_datum(line@));
            }
        } else {
            proof {
                assert(line_datum(line@) =~= Seq::<Seq<char>>::empty());
                assert(out@.map_values(|s: String| s@) =~= old_out.map_values(|s: String| s@)
                    + line_datum(line@));
            }
        }
        if e == n {
            proof {
                assert(data_lines_of(rem) == line_datum(rem));
            }
            break ;
        }
        proof {
            assert(data_lines_of(rem) == line_datum(rem.take(e - start)) + data_lines_of(
                rem.skip(e - start + 1),
            ));
            assert(rem.skip(e - start + 1) =~= text@.skip(e + 1));
        }
        start = e + 1;
    }
    out
}

/// Whether a cached API token is still fresh at `now_secs` (seconds since
/// the epoch): its expiry lies strictly in the future.
pub fn token_is_fresh(expires_at: u64, now_secs: u64) -> (r: bool)
    ensures
        r == (expires_at > now_secs),
{
    expires_at > now_secs
}

/// The OAuth token of the first configuration entry whose key names the
/// `github.com` host.
pub open spec fn first_github_token(entries: Seq<(Seq<char>, Seq<char>)>) -> Option<Seq<char>>
    decreases entries.len(),
{
    if entries.len() == 0 {
        None
    } else if "github.com"@.is_prefix_of(entries[0].0) {
        Some(entries[0].1)
    } else {
        first_github_token(entries.skip(1))
    }
}

/// The view of a list of key/token pairs.
pub open spec fn entry_views(s: Seq<(String, String)>) -> Seq<(Seq<char>, Seq<char>)> {
    s.map_values(|p: (String, String)| (p.0@, p.1@))
}

/// Selects the OAuth token of the first entry whose key starts with
/// `github.com`, from the configuration entries the caller read.
pub fn select_github_token(entries: &Vec<(String, String)>) -> (r: Option<String>)
    ensures
        match r {
            Some(t) => first_github_token(entry_views(entries@)) == Some(t@),
            None => first_github_token(entry_views(entries@)) is None,
        },
{
    let ghost ev = entry_views(entries@);
    proof {
        assert(ev.skip(0) =~= ev);
    }
    let n = entries.len();
    let mut i: usize = 0;
    while i < n
        invariant
            n == entries@.len(),
            ev == entry_views(entries@),
            i <= n,
            first_github_token(ev) == first_github_token(ev.skip(i as int)),
        decreases n - i,
    {
        if str_starts_with(entries[i].0.as_str(), "github.com") {
            proof {
                assert(ev.skip(i as int)[0] == ev[i as int]);
                assert(first_github_token(ev.skip(i as int)) == Some(ev[i as int].1));
            }
            return Some(entries[i].1.clone());
        }
        proof {
            assert(ev.skip(i as int)[0] == ev[i as int]);
            assert(ev.skip(i as int).skip(1) =~= ev.skip(i + 1));
        }
        i = i + 1;
    }
    proof {
        assert(ev.skip(n as int) =~= Seq::<(Seq<char>, Seq<char>)>::empty());
    }
    None
}

} // verus!
