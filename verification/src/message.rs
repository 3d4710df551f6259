//! The parsed form of one protocol line, and the line parser.
//!
//! A line is tokenized on whitespace, except that everything after the
//! first space-colon pair is one verbatim trailing parameter. An optional
//! leading colon-marked token is the sender origin; the next token is the
//! command; the remaining tokens before the boundary are the middle
//! parameters.

use vstd::prelude::*;

use crate::text::find_boundary;
use crate::text::lemma_boundary_first;
use crate::text::lemma_tokens_wf;
use crate::text::spec_boundary;
use crate::text::spec_is_ws;
use crate::text::spec_join_spaced;
use crate::text::spec_tokens;
use crate::text::spec_wf_token;
use crate::text::tokenize;

verus! {

/// Why a line could not be parsed: it held no token at all, or no
/// command token could be extracted.
#[derive(Debug, Clone, Copy, PartialEq, Eq, Structural)]
pub enum ParseFailure {
    Empty,
    MissingCommand,
}

/// One parsed protocol line: optional sender origin, command token, and
/// ordered parameters (middle parameters, then at most one trailing
/// parameter).
#[derive(Debug)]
pub struct IrcMessage {
    pub prefix: Option<String>,
    pub command: String,
    pub params: Vec<String>,
}

/// The mathematical shape of a parsed line.
#[verifier::ext_equal]
pub struct MessageModel {
    pub prefix: Option<Seq<char>>,
    pub command: Seq<char>,
    pub params: Seq<Seq<char>>,
}

impl View for IrcMessage {
    type V = MessageModel;

    open spec fn view(&self) -> MessageModel {
        MessageModel {
            prefix: match self.prefix {
                Some(p) => Some(p@),
                None => None,
            },
            command: self.command@,
            params: self.params.deep_view(),
        }
    }
}

/// What parsing a line yields, defined over character sequences.
///
/// A line with no token at all is empty. Otherwise the text before the
/// first space-colon boundary (the whole line when there is none) is
/// tokenized; a first token starting with a colon is the origin, the
/// token after it the command, the rest the middle parameters; the text
/// after the boundary is appended verbatim as one trailing parameter.
/// A line whose head holds no command token fails.
pub open spec fn spec_parse(s: Seq<char>) -> Result<MessageModel, ParseFailure> {
    if spec_tokens(s).len() == 0 {
        Err(ParseFailure::Empty)
    } else {
        let head = match spec_boundary(s) {
            Some(i) => s.take(i),
            None => s,
        };
        let toks = spec_tokens(head);
        if toks.len() == 0 {
            Err(ParseFailure::MissingCommand)
        } else {
            let has_prefix = toks[0].len() > 0 && toks[0][0] == ':';
            if has_prefix && toks.len() == 1 {
                Err(ParseFailure::MissingCommand)
            } else {
                let k: int = if has_prefix {
                    2
                } else {
                    1
                };
                let mids = toks.skip(k);
                let params = match spec_boundary(s) {
                    Some(i) => mids.push(s.skip(i + 2)),
                    None => mids,
                };
                Ok(
                    MessageModel {
                        prefix: if has_prefix {
                            Some(toks[0].drop_first())
                        } else {
                            None
                        },
                        command: toks[k - 1],
                        params: params,
                    },
                )
            }
        }
    }
}

impl IrcMessage {
    /// Parses one protocol line, already stripped of its terminator.
    pub fn parse(line: &str) -> (r: Result<IrcMessage, ParseFailure>)
        ensures
            r is Ok <==> spec_parse(line@) is Ok,
            r is Ok ==> r->Ok_0@ == spec_parse(line@)->Ok_0,
            r is Err ==> r->Err_0 == spec_parse(line@)->Err_0,
    {
        let n = line.unicode_len();
        let b = find_boundary(line);
        let full = tokenize(line);
        if full.len() == 0 {
            return Err(ParseFailure::Empty);
        }
        let (head_toks, trailing) = match b {
            Some(i) => {
                proof {
                    lemma_boundary_first(line@);
                    assert(line@.subrange(0, i as int) =~= line@.take(i as int));
                    assert(line@.subrange(i + 2, n as int) =~= line@.skip(i + 2));
                }
                let head = line.substring_char(0, i);
                let trail = String::from_str(line.substring_char(i + 2, n));
                (tokenize(head), Some(trail))
            },
            None => (full, None),
        };
        let ghost toks = head_toks.deep_view();
        if head_toks.len() == 0 {
            return Err(ParseFailure::MissingCommand);
        }
        let first = &head_toks[0];
        let first_len = first.as_str().unicode_len();
        let has_prefix = first_len > 0 && first.as_str().get_char(0) == ':';
        if has_prefix && head_toks.len() == 1 {
            return Err(ParseFailure::MissingCommand);
        }
        let prefix: Option<String> = if has_prefix {
            let p = String::from_str(first.as_str().substring_char(1, first_len));
            proof {
                assert(first@.subrange(1, first_len as int) =~= toks[0].drop_first());
            }
            Some(p)
        } else {
            None
        };
        let cmd_idx: usize = if has_prefix {
            1
        } else {
            0
        };
        let command = head_toks[cmd_idx].clone();
        let mut params: Vec<String> = Vec::new();
        let mut j: usize = cmd_idx + 1;
        proof {
            assert(params.deep_view() =~~= toks.subrange(cmd_idx + 1, cmd_idx + 1));
        }
        while j < head_toks.len()
            invariant
                cmd_idx + 1 <= j <= head_toks.len(),
                toks == head_toks.deep_view(),
                params.deep_view() == toks.subrange(cmd_idx + 1, j as int),
            decreases head_toks.len() - j,
        {
            let ghost old_params = params.deep_view();
            params.push(head_toks[j].clone());
            proof {
                assert(params.deep_view() =~~= old_params.push(toks[j as int]));
                assert(old_params.push(toks[j as int]) =~~= toks.subrange(
                    cmd_idx + 1,
                    j + 1 as int,
                ));
            }
            j += 1;
        }
        proof {
            assert(toks.subrange(cmd_idx + 1, toks.len() as int) =~~= toks.skip(cmd_idx + 1));
        }
        if let Some(t) = trailing {
            let ghost old_params = params.deep_view();
            params.push(t);
            proof {
                assert(params.deep_view() =~~= old_params.push(t@));
            }
        }
        let m = IrcMessage { prefix, command, params };
        proof {
            let model = spec_parse(line@)->Ok_0;
            assert(m@ =~~= model);
        }
        Ok(m)
    }
}

/// The structural invariant of a parsed message: the command is a
/// non-empty token free of whitespace, the origin (when present) holds
/// no whitespace, and every parameter except possibly the last is a
/// non-empty whitespace-free token — only the trailing parameter may
/// contain spaces, and it is always the last element.
pub proof fn lemma_parsed_message_shape(s: Seq<char>)
    requires
        spec_parse(s) is Ok,
    ensures
        spec_wf_token(spec_parse(s)->Ok_0.command),
        spec_parse(s)->Ok_0.prefix matches Some(p) ==> forall|j: int|
            0 <= j < p.len() ==> !spec_is_ws(p[j]),
        forall|i: int|
            0 <= i < spec_parse(s)->Ok_0.params.len() - 1 ==> spec_wf_token(
                #[trigger] spec_parse(s)->Ok_0.params[i],
            ),
{
    let m = spec_parse(s)->Ok_0;
    let head = match spec_boundary(s) {
        Some(i) => s.take(i),
        None => s,
    };
    let toks = spec_tokens(head);
    lemma_tokens_wf(head);
    let k: int = if m.prefix is Some {
        2
    } else {
        1
    };
    assert(spec_wf_token(toks[k - 1]));
    if m.prefix is Some {
        let p = spec_parse(s)->Ok_0.prefix->Some_0;
        assert(spec_wf_token(toks[0]));
        assert(forall|j: int| 0 <= j < p.len() ==> p[j] == toks[0][j + 1]);
    }
    let mids = toks.skip(k);
    assert(forall|i: int| 0 <= i < mids.len() ==> mids[i] == toks[i + k]);
    assert(forall|i: int| 0 <= i < mids.len() ==> spec_wf_token(#[trigger] mids[i]));
    match spec_boundary(s) {
        Some(b) => {
            assert(m.params == mids.push(s.skip(b + 2)));
            assert(forall|i: int| 0 <= i < m.params.len() - 1 ==> m.params[i] == mids[i]);
        },
        None => {
            assert(m.params == mids);
        },
    }
}

/// Parsing keeps a plain line's tokens intact: for a line with no origin
/// prefix and no trailing-parameter boundary, the command followed by
/// the parameters, joined by single spaces, is exactly the
/// whitespace-normalized form of the original line.
pub proof fn lemma_parse_rejoins_normalized(s: Seq<char>)
    requires
        spec_boundary(s) is None,
        spec_parse(s) is Ok,
        spec_parse(s)->Ok_0.prefix is None,
    ensures
        spec_join_spaced(seq![spec_parse(s)->Ok_0.command] + spec_parse(s)->Ok_0.params)
            == spec_join_spaced(spec_tokens(s)),
{
    let m = spec_parse(s)->Ok_0;
    let toks = spec_tokens(s);
    assert(seq![m.command] + m.params =~~= toks);
}

} // verus!
