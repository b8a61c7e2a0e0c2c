//! Encoding of command lines for the wire format: the command name, each
//! argument double-quoted with embedded quotes and backslashes escaped,
//! and a single terminating newline. An argument holding a newline is
//! rejected, since it would desynchronize the line-oriented stream.

use vstd::prelude::*;
use vstd::string::StrSliceExecFns;
use vstd::string::StringExecFns;
use crate::text::push_char;

verus! {

/// The escaped form of one character inside a quoted argument.
pub open spec fn esc_char(c: char) -> Seq<char> {
    if c == '"' || c == '\\' {
        seq!['\\', c]
    } else {
        seq![c]
    }
}

/// The escaped form of an argument's characters.
pub open spec fn escape(s: Seq<char>) -> Seq<char>
    decreases s.len(),
{
    if s.len() == 0 {
        Seq::empty()
    } else {
        esc_char(s[0]) + escape(s.skip(1))
    }
}

/// An argument as it stands on the wire: double-quoted and escaped.
pub open spec fn quoted_arg(s: Seq<char>) -> Seq<char> {
    seq!['"'] + escape(s) + seq!['"']
}

/// The concatenation of the quoted arguments, each preceded by a space.
pub open spec fn args_body(args: Seq<Seq<char>>) -> Seq<char>
    decreases args.len(),
{
    if args.len() == 0 {
        Seq::empty()
    } else {
        args_body(args.drop_last()) + seq![' '] + quoted_arg(args.last())
    }
}

/// One full request line: command name, quoted arguments, newline.
pub open spec fn command_line(cmd: Seq<char>, args: Seq<Seq<char>>) -> Seq<char> {
    cmd + args_body(args) + seq!['\n']
}

proof fn lemma_escape_push(s: Seq<char>, c: char)
    ensures
        escape(s.push(c)) == escape(s) + esc_char(c),
    decreases s.len(),
{
    if s.len() == 0 {
        let p = s.push(c);
        assert(p.len() == 1);
        assert(p[0] == c);
        assert(p.skip(1) =~= Seq::<char>::empty());
        assert(escape(p) == esc_char(c) + escape(p.skip(1)));
        assert(escape(p.skip(1)) == Seq::<char>::empty());
        assert(escape(p) =~= escape(s) + esc_char(c));
    } else {
        assert(s.push(c).skip(1) =~= s.skip(1).push(c));
        lemma_escape_push(s.skip(1), c);
        assert(escape(s.push(c)) =~= escape(s) + esc_char(c));
    }
}

/// An error encoding a command line.
#[derive(Debug, PartialEq, Eq, Structural)]
pub enum EncodeError {
    /// An argument holds a newline character, which the line-oriented
    /// wire format cannot carry.
    NewlineInArgument,
}

/// Encodes a command name and arguments into one wire line.
pub fn encode_command(cmd: &str, args: &Vec<String>) -> (r: Result<String, EncodeError>)
    ensures
        (r matches Ok(line) ==> line@ == command_line(cmd@, args.deep_view())),
        (r is Err <==> exists|i: int|
            0 <= i < args.len() && (#[trigger] args.deep_view()[i]).contains('\n')),
{
    let ghost argviews = args.deep_view();
    let mut line: String = cmd.to_owned();
    let n = args.len();
    let mut i: usize = 0;
    while i < n
        invariant
            i <= n,
            n == args.len(),
            argviews == args.deep_view(),
            argviews.len() == n,
            line@ == cmd@ + args_body(argviews.take(i as int)),
            forall|k: int| 0 <= k < i ==> !(#[trigger] argviews[k]).contains('\n'),
        decreases n - i,
    {
        let ghost before = line@;
        push_char(&mut line, ' ');
        push_char(&mut line, '"');
        let arg = &args[i];
        let ghost argview = argviews[i as int];
        assert(argview == arg@);
        let m = arg.as_str().unicode_len();
        let mut j: usize = 0;
        while j < m
            invariant
                j <= m,
                m == argview.len(),
                argview == arg@,
                argviews == args.deep_view(),
                n == args.len(),
                argviews.len() == n,
                i < n,
                argview == argviews[i as int],
                line@ == before + seq![' ', '"'] + escape(argview.take(j as int)),
                forall|k: int| 0 <= k < j ==> argview[k] != '\n',
            decreases m - j,
        {
            let c = arg.as_str().get_char(j);
            assert(c == argview[j as int]);
            if c == '\n' {
                proof {
                    assert(argview[j as int] == '\n');
                    assert(argview.contains('\n'));
                    assert((args.deep_view()[i as int]).contains('\n'));
                }
                return Err(EncodeError::NewlineInArgument);
            }
            proof {
                assert(argview.take(j + 1) =~= argview.take(j as int).push(argview[j as int]));
                lemma_escape_push(argview.take(j as int), c);
            }
            if c == '"' || c == '\\' {
                push_char(&mut line, '\\');
                push_char(&mut line, c);
            } else {
                push_char(&mut line, c);
            }
            assert(line@ =~= before + seq![' ', '"'] + escape(argview.take(j + 1)));
            j += 1;
        }
        assert(argview.take(m as int) =~= argview);
        assert(forall|k: int| 0 <= k < argview.len() ==> argview[k] != '\n');
        assert(!argview.contains('\n'));
        push_char(&mut line, '"');
        proof {
            assert(argviews.take(i + 1).drop_last() =~= argviews.take(i as int));
            assert(argviews.take(i + 1).last() == argview);
            assert(line@ =~= cmd@ + args_body(argviews.take(i + 1)));
        }
        i += 1;
    }
    assert(argviews.take(n as int) =~= argviews);
    push_char(&mut line, '\n');
    assert(line@ =~= command_line(cmd@, argviews));
    Ok(line)
}

/// The decoding a peer applies to one escaped argument body: each `\"` or
/// `\\` stands for its second character; a bare quote or a trailing
/// backslash is malformed.
pub open spec fn unescape(s: Seq<char>) -> Option<Seq<char>>
    decreases s.len(),
{
    if s.len() == 0 {
        Some(Seq::empty())
    } else if s[0] == '\\' {
        if s.len() >= 2 && (s[1] == '"' || s[1] == '\\') {
            match unescape(s.skip(2)) {
                Some(r) => Some(seq![s[1]] + r),
                None => None,
            }
        } else {
            None
        }
    } else if s[0] == '"' {
        None
    } else {
        match unescape(s.skip(1)) {
            Some(r) => Some(seq![s[0]] + r),
            None => None,
        }
    }
}

/// The decoding of one whole quoted argument: surrounding double quotes,
/// then the unescaped body.
pub open spec fn parse_quoted_arg(t: Seq<char>) -> Option<Seq<char>> {
    if t.len() >= 2 && t[0] == '"' && t.last() == '"' {
        unescape(t.subrange(1, t.len() - 1))
    } else {
        None
    }
}

proof fn lemma_unescape_escape(s: Seq<char>)
    ensures
        unescape(escape(s)) == Some(s),
    decreases s.len(),
{
    if s.len() > 0 {
        lemma_unescape_escape(s.skip(1));
        let e = escape(s);
        if s[0] == '"' || s[0] == '\\' {
            assert(e[0] == '\\' && e[1] == s[0]);
            assert(e.skip(2) =~= escape(s.skip(1)));
            assert(seq![s[0]] + s.skip(1) =~= s);
        } else {
            assert(e[0] == s[0]);
            assert(e.skip(1) =~= escape(s.skip(1)));
            assert(seq![s[0]] + s.skip(1) =~= s);
        }
    }
}

/// Quoting round-trip: encoding an argument (one without a newline, the
/// only kind the encoder accepts) and then decoding it through the wire
/// format reproduces the original string exactly.
pub proof fn lemma_quoting_round_trip(s: Seq<char>)
    requires
        !s.contains('\n'),
    ensures
        parse_quoted_arg(quoted_arg(s)) == Some(s),
{
    let q = quoted_arg(s);
    assert(q[0] == '"');
    assert(q.last() == '"');
    assert(q.subrange(1, q.len() - 1) =~= escape(s));
    lemma_unescape_escape(s);
}

/// Decodes one quoted argument, as a peer reading the wire format would.
pub fn unquote_arg(t: &str) -> (r: Option<String>)
    ensures
        match r {
            Some(x) => parse_quoted_arg(t@) == Some(x@),
            None => parse_quoted_arg(t@) is None,
        },
{
    let n = t.unicode_len();
    if n < 2 {
        return None;
    }
    if t.get_char(0) != '"' || t.get_char(n - 1) != '"' {
        return None;
    }
    let r = unescape_range(t, 1, n - 1);
    proof {
        assert(t@.subrange(1, t@.len() - 1) == t@.subrange(1, (n - 1) as int));
    }
    r
}

fn unescape_range(t: &str, from: usize, to: usize) -> (r: Option<String>)
    requires
        from <= to <= t@.len(),
    ensures
        match r {
            Some(x) => unescape(t@.subrange(from as int, to as int)) == Some(x@),
            None => unescape(t@.subrange(from as int, to as int)) is None,
        },
    decreases to - from,
{
    let ghost body = t@.subrange(from as int, to as int);
    if from == to {
        assert(body.len() == 0);
        return Some(String::new());
    }
    let c = t.get_char(from);
    assert(c == body[0]);
    if c == '"' {
        return None;
    }
    if c == '\\' {
        if from + 1 >= to {
            assert(body.len() < 2);
            return None;
        }
        let c2 = t.get_char(from + 1);
        assert(c2 == body[1]);
        if c2 == '"' || c2 == '\\' {
            match unescape_range(t, from + 2, to) {
                Some(rest) => {
                    assert(t@.subrange(from + 2, to as int) =~= body.skip(2));
                    let mut out = String::new();
                    push_char(&mut out, c2);
                    out.append(rest.as_str());
                    assert(out@ =~= seq![body[1]] + rest@);
                    Some(out)
                },
                None => {
                    assert(t@.subrange(from + 2, to as int) =~= body.skip(2));
                    None
                },
            }
        } else {
            None
        }
    } else {
        match unescape_range(t, from + 1, to) {
            Some(rest) => {
                assert(t@.subrange(from + 1, to as int) =~= body.skip(1));
                let mut out = String::new();
                push_char(&mut out, c);
                out.append(rest.as_str());
                assert(out@ =~= seq![body[0]] + rest@);
                Some(out)
            },
            None => {
                assert(t@.subrange(from + 1, to as int) =~= body.skip(1));
                None
            },
        }
    }
}

} // verus!
