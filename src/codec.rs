//! Request lines: how a command and its arguments are written, and how a
//! receiving end splits such a line back into fields.

use vstd::prelude::*;
use crate::commands::{command_word, TCSCommand};

verus! {

/// Whether `c` is white space in Unicode's sense, the characters that
/// `char::is_whitespace` recognises.
pub open spec fn is_blank(c: char) -> bool {
    let u = c as u32;
    ||| 0x09 <= u <= 0x0d
    ||| u == 0x20
    ||| u == 0x85
    ||| u == 0xa0
    ||| u == 0x1680
    ||| 0x2000 <= u <= 0x200a
    ||| u == 0x2028
    ||| u == 0x2029
    ||| u == 0x202f
    ||| u == 0x205f
    ||| u == 0x3000
}

/// Whether `s` can travel as one field: it is not empty and holds no white space.
pub open spec fn is_token(s: Seq<char>) -> bool {
    s.len() > 0 && forall|i: int| 0 <= i < s.len() ==> !is_blank(#[trigger] s[i])
}

/// The arguments, each preceded by a single space.
pub open spec fn spaced(args: Seq<Seq<char>>) -> Seq<char>
    decreases args.len(),
{
    if args.len() == 0 {
        seq![]
    } else {
        spaced(args.drop_last()) + seq![' '] + args.last()
    }
}

/// The request line for `c` with `args`: the verb, then each argument after a
/// single space, then a line feed.
pub open spec fn request_line(c: TCSCommand, args: Seq<Seq<char>>) -> Seq<char> {
    command_word(c) + spaced(args) + seq!['\n']
}

/// The length of the run of non-blank characters that starts `s`.
pub open spec fn word_len(s: Seq<char>) -> nat
    decreases s.len(),
{
    if s.len() == 0 || is_blank(s[0]) {
        0
    } else {
        1 + word_len(s.drop_first())
    }
}

/// A leading run is never longer than the text it starts.
pub proof fn lemma_word_len_bound(s: Seq<char>)
    ensures
        word_len(s) <= s.len(),
    decreases s.len(),
{
    if s.len() > 0 && !is_blank(s[0]) {
        lemma_word_len_bound(s.drop_first());
    }
}

/// The fields of `s` as a receiving end reads them: the maximal runs of
/// non-blank characters, in order. Runs of white space, leading and trailing
/// ones included, only separate fields.
pub open spec fn words(s: Seq<char>) -> Seq<Seq<char>>
    decreases s.len(),
{
    if s.len() == 0 {
        seq![]
    } else if is_blank(s[0]) {
        words(s.drop_first())
    } else {
        proof {
            lemma_word_len_bound(s);
        }
        let n = word_len(s) as int;
        seq![s.take(n)] + words(s.skip(n))
    }
}

proof fn lemma_word_len_append(a: Seq<char>, b: Seq<char>)
    requires
        b.len() == 0 || is_blank(b[0]),
    ensures
        word_len(a + b) == word_len(a),
    decreases a.len(),
{
    if a.len() == 0 {
        assert(a + b =~= b);
    } else {
        assert((a + b)[0] == a[0]);
        assert((a + b).drop_first() =~= a.drop_first() + b);
        lemma_word_len_append(a.drop_first(), b);
    }
}

proof fn lemma_words_append(a: Seq<char>, b: Seq<char>)
    requires
        b.len() == 0 || is_blank(b[0]),
    ensures
        words(a + b) == words(a) + words(b),
    decreases a.len(),
{
    if a.len() == 0 {
        assert(a + b =~= b);
        assert(words(a) + words(b) =~= words(b));
    } else if is_blank(a[0]) {
        assert((a + b)[0] == a[0]);
        assert((a + b).drop_first() =~= a.drop_first() + b);
        lemma_words_append(a.drop_first(), b);
    } else {
        assert((a + b)[0] == a[0]);
        lemma_word_len_append(a, b);
        lemma_word_len_bound(a);
        let n = word_len(a) as int;
        assert(n >= 1);
        assert((a + b).take(n) =~= a.take(n));
        assert((a + b).skip(n) =~= a.skip(n) + b);
        lemma_words_append(a.skip(n), b);
        assert(words(a + b) =~= words(a) + words(b));
    }
}

proof fn lemma_words_token(t: Seq<char>)
    requires
        is_token(t),
    ensures
        words(t) == seq![t],
    decreases t.len(),
{
    lemma_word_len_token(t);
    assert(t.take(t.len() as int) =~= t);
    assert(t.skip(t.len() as int) =~= Seq::<char>::empty());
    assert(words(t.skip(t.len() as int)) =~= Seq::<Seq<char>>::empty());
    assert(words(t) =~= seq![t]);
}

proof fn lemma_word_len_token(t: Seq<char>)
    requires
        forall|i: int| 0 <= i < t.len() ==> !is_blank(#[trigger] t[i]),
    ensures
        word_len(t) == t.len(),
    decreases t.len(),
{
    if t.len() > 0 {
        let rest = t.drop_first();
        assert(forall|i: int| 0 <= i < rest.len() ==> rest[i] == t[i + 1]);
        lemma_word_len_token(rest);
    }
}

proof fn lemma_words_blank_first(c: char, s: Seq<char>)
    requires
        is_blank(c),
    ensures
        words(seq![c] + s) == words(s),
{
    assert((seq![c] + s).drop_first() =~= s);
}

proof fn lemma_words_spaced(args: Seq<Seq<char>>)
    requires
        forall|i: int| 0 <= i < args.len() ==> is_token(#[trigger] args[i]),
    ensures
        words(spaced(args)) == args,
    decreases args.len(),
{
    if args.len() == 0 {
        assert(words(spaced(args)) =~= args);
    } else {
        let init = args.drop_last();
        let last = args.last();
        assert(forall|i: int| 0 <= i < init.len() ==> init[i] == args[i]);
        lemma_words_spaced(init);
        assert(is_token(args[args.len() - 1]));
        let tail = seq![' '] + last;
        assert(spaced(args) =~= spaced(init) + tail);
        lemma_words_append(spaced(init), tail);
        lemma_words_blank_first(' ', last);
        lemma_words_token(last);
        assert(words(spaced(args)) =~= args);
    }
}

/// Every verb of the command set is a single field.
pub proof fn lemma_command_word_is_token(c: TCSCommand)
    ensures
        is_token(command_word(c)),
{
        reveal_strlit("mode");
        reveal_strlit("exit");
        reveal_strlit("hp");
        reveal_strlit("selectRobot");
        reveal_strlit("attach");
        reveal_strlit("home");
        reveal_strlit("halt");
        reveal_strlit("loc");
        reveal_strlit("locXYZ");
        reveal_strlit("profile");
        reveal_strlit("move");
        reveal_strlit("movec");
        reveal_strlit("movej");
        reveal_strlit("state");
        reveal_strlit("moveoneaxis");
        reveal_strlit("moveRail");
        reveal_strlit("pd");
        reveal_strlit("wherej");
        reveal_strlit("wherec");
        reveal_strlit("freemode");
        reveal_strlit("nop");
        reveal_strlit("mspeed");
        reveal_strlit("payload");
        reveal_strlit("waitForEOM");
}

/// A request line, split as a receiving end splits it, gives back the verb
/// followed by exactly the arguments, in order, whenever each argument is a
/// non-empty field without white space.
pub proof fn lemma_request_round_trip(c: TCSCommand, args: Seq<Seq<char>>)
    requires
        forall|i: int| 0 <= i < args.len() ==> is_token(#[trigger] args[i]),
    ensures
        words(request_line(c, args)) == seq![command_word(c)] + args,
{
    let w = command_word(c);
    let rest = spaced(args) + seq!['\n'];
    lemma_command_word_is_token(c);
    assert(request_line(c, args) =~= w + rest);
    if args.len() > 0 {
        assert(spaced(args) =~= spaced(args.drop_last()) + seq![' '] + args.last());
        assert(rest[0] == spaced(args)[0]);
        if args.len() == 1 {
            assert(spaced(args.drop_last()) =~= Seq::<char>::empty());
        } else {
            assert(spaced(args.drop_last()).len() > 0) by {
                let init = args.drop_last();
                assert(spaced(init) =~= spaced(init.drop_last()) + seq![' '] + init.last());
            }
            lemma_spaced_starts_blank(args.drop_last());
        }
    }
    lemma_words_append(w, rest);
    lemma_words_token(w);
    lemma_words_append(spaced(args), seq!['\n']);
    lemma_words_spaced(args);
    lemma_words_blank_first('\n', Seq::<char>::empty());
    assert(seq!['\n'] =~= seq!['\n'] + Seq::<char>::empty());
    assert(words(Seq::<char>::empty()) =~= Seq::<Seq<char>>::empty());
    assert(args + Seq::<Seq<char>>::empty() =~= args);
}

proof fn lemma_spaced_starts_blank(args: Seq<Seq<char>>)
    requires
        args.len() > 0,
    ensures
        spaced(args).len() > 0,
        spaced(args)[0] == ' ',
    decreases args.len(),
{
    let init = args.drop_last();
    if init.len() == 0 {
        assert(spaced(init) =~= Seq::<char>::empty());
        assert(spaced(args) =~= seq![' '] + args.last());
    } else {
        lemma_spaced_starts_blank(init);
        assert(spaced(args) =~= spaced(init) + seq![' '] + args.last());
    }
}

/// The request line for `command` with `args`.
pub fn encode(command: TCSCommand, args: &Vec<String>) -> (r: String)
    ensures
        r@ == request_line(command, args.deep_view()),
{
    let mut line = String::from_str(command.as_str());
    let mut i: usize = 0;
    while i < args.len()
        invariant
            i <= args.len(),
            line@ == command_word(command) + spaced(args.deep_view().take(i as int)),
        decreases args.len() - i,
    {
        proof {
            reveal_strlit(" ");
        }
        line.append(" ");
        line.append(args[i].as_str());
        proof {
            let taken = args.deep_view().take(i as int + 1);
            assert(taken.drop_last() =~= args.deep_view().take(i as int));
            assert(taken.last() == args@[i as int]@);
            assert(line@ =~= command_word(command) + spaced(taken));
        }
        i = i + 1;
    }
    proof {
        reveal_strlit("\n");
    }
    line.append("\n");
    assert(args.deep_view().take(i as int) =~= args.deep_view());
    line
}

} // verus!
