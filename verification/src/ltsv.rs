//! Log lines in LTSV: `key=value` fields, each pair of a line separated from
//! the next by a tab. A backslash, a line feed, a tab or an equals sign inside
//! a key or a value is written with a backslash before it.

use vstd::prelude::*;

verus! {

/// Whether `c` is written with a backslash before it.
pub open spec fn needs_escape(c: char) -> bool {
    c == '\\' || c == '\n' || c == '\t' || c == '='
}

/// `s` as it stands in a log line.
pub open spec fn escaped(s: Seq<char>) -> Seq<char>
    decreases s.len(),
{
    if s.len() == 0 {
        Seq::empty()
    } else if needs_escape(s.last()) {
        escaped(s.drop_last()).push('\\').push(s.last())
    } else {
        escaped(s.drop_last()).push(s.last())
    }
}

/// One field of a log line.
pub open spec fn field(key: Seq<char>, value: Seq<char>) -> Seq<char> {
    escaped(key) + seq!['='] + escaped(value)
}

/// The fields of `tags`, each with a tab before it.
pub open spec fn fields(tags: Seq<(Seq<char>, Seq<char>)>) -> Seq<char>
    decreases tags.len(),
{
    if tags.len() == 0 {
        Seq::empty()
    } else {
        fields(tags.drop_last()) + seq!['\t'] + field(tags.last().0, tags.last().1)
    }
}

/// The keys and values of `tags` as sequences of characters.
pub open spec fn tag_views(tags: Seq<(&str, &str)>) -> Seq<(Seq<char>, Seq<char>)> {
    Seq::new(tags.len(), |i: int| (tags[i].0@, tags[i].1@))
}

/// A whole log line: the thread's name, the level and the message, then the
/// tags in the order given.
pub open spec fn line(
    thread: Seq<char>,
    level: Seq<char>,
    msg: Seq<char>,
    tags: Seq<(Seq<char>, Seq<char>)>,
) -> Seq<char> {
    field("thread"@, thread) + seq!['\t'] + field("level"@, level) + seq!['\t'] + field(
        "msg"@,
        msg,
    ) + fields(tags)
}

/// `String::push` of the standard library: appends the character `c` to the
/// end of `buf` and changes nothing else.
#[verifier::external_body]
pub(crate) fn push_char(buf: &mut String, c: char)
    ensures
        final(buf)@ == old(buf)@.push(c),
{
    buf.push(c);
}

/// Appends `s`, escaped, to `buf`.
fn push_escaped(buf: &mut String, s: &str)
    ensures
        final(buf)@ == old(buf)@ + escaped(s@),
{
    let ghost start = buf@;
    assert(s@.take(0) =~= Seq::<char>::empty());
    for c in it: s.chars()
        invariant
            it.seq() == s@,
            buf@ == start + escaped(s@.take(it.index() as int)),
    {
        let ghost i = it.index() as int;
        proof {
            assert(s@.take(i + 1).drop_last() =~= s@.take(i));
            assert(s@.take(i + 1).last() == c);
        }
        if c == '\\' || c == '\n' || c == '\t' || c == '=' {
            push_char(buf, '\\');
        }
        push_char(buf, c);
        proof {
            let e = escaped(s@.take(i));
            if needs_escape(c) {
                assert(buf@ =~= start + e.push('\\').push(c));
            } else {
                assert(buf@ =~= start + e.push(c));
            }
        }
    }
    proof {
        assert(s@.take(s@.len() as int) =~= s@);
    }
}

/// Appends the field `key=value` to `buf`, both parts escaped.
pub fn ltsv_encode(buf: &mut String, key: &str, value: &str)
    ensures
        final(buf)@ == old(buf)@ + field(key@, value@),
{
    let ghost start = buf@;
    push_escaped(buf, key);
    push_char(buf, '=');
    push_escaped(buf, value);
    proof {
        assert(buf@ =~= start + field(key@, value@));
    }
}

/// Appends every tag of `vals` to `log_line`, each with a tab before it.
pub fn ltsv_print(log_line: &mut String, vals: &Vec<(&str, &str)>)
    ensures
        final(log_line)@ == old(log_line)@ + fields(tag_views(vals@)),
{
    let ghost start = log_line@;
    let ghost tags = tag_views(vals@);
    let mut i: usize = 0;
    assert(tags.take(0) =~= Seq::<(Seq<char>, Seq<char>)>::empty());
    while i < vals.len()
        invariant
            i <= vals@.len(),
            tags == tag_views(vals@),
            log_line@ == start + fields(tags.take(i as int)),
        decreases vals@.len() - i,
    {
        proof {
            assert(tags.take(i as int + 1).drop_last() =~= tags.take(i as int));
            assert(tags.take(i as int + 1).last() == (vals@[i as int].0@, vals@[i as int].1@));
        }
        push_char(log_line, '\t');
        ltsv_encode(log_line, vals[i].0, vals[i].1);
        proof {
            assert(log_line@ =~= start + fields(tags.take(i as int + 1)));
        }
        i += 1;
    }
    proof {
        assert(tags.take(tags.len() as int) =~= tags);
    }
}

/// Builds the log line of one event: the thread's name first, then the level
/// and the message, then the tags.
pub fn log(thread: &str, level: &str, msg: &str, tags: &Vec<(&str, &str)>) -> (log_line: String)
    ensures
        log_line@ == line(thread@, level@, msg@, tag_views(tags@)),
{
    let mut log_line = String::new();
    ltsv_encode(&mut log_line, "thread", thread);
    push_char(&mut log_line, '\t');
    ltsv_encode(&mut log_line, "level", level);
    push_char(&mut log_line, '\t');
    ltsv_encode(&mut log_line, "msg", msg);
    ltsv_print(&mut log_line, tags);
    proof {
        assert(log_line@ =~= line(thread@, level@, msg@, tag_views(tags@)));
    }
    log_line
}

} // verus!
