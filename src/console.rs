//! The lines that the logging bindings write.

use vstd::prelude::*;

verus! {

/// The texts joined by `sep`.
pub open spec fn joined(parts: Seq<String>, sep: Seq<char>) -> Seq<char>
    decreases parts.len(),
{
    if parts.len() == 0 {
        Seq::empty()
    } else if parts.len() == 1 {
        parts[0]@
    } else {
        joined(parts.drop_last(), sep) + sep + parts.last()@
    }
}

fn append_joined(out: &mut String, parts: &Vec<String>, sep: &str)
    ensures
        final(out)@ == old(out)@ + joined(parts@, sep@),
{
    let ghost start = out@;
    let mut i: usize = 0;
    while i < parts.len()
        invariant
            i <= parts@.len(),
            out@ == start + joined(parts@.take(i as int), sep@),
        decreases parts@.len() - i,
    {
        let ghost before = out@;
        if i > 0 {
            out.append(sep);
        }
        out.append(parts[i].as_str());
        proof {
            let t = parts@.take(i + 1);
            assert(t.drop_last() =~= parts@.take(i as int));
            if i == 0 {
                assert(out@ =~= start + t[0]@);
            } else {
                assert(out@ =~= before + sep@ + t.last()@);
            }
        }
        i = i + 1;
    }
    assert(parts@.take(i as int) =~= parts@);
}

/// What `console.log` and `console.error` write: the arguments joined by single
/// spaces, then a newline.
pub fn console_line(args: &Vec<String>) -> (r: String)
    ensures
        r@ == joined(args@, " "@) + "\n"@,
{
    let mut out = String::new();
    append_joined(&mut out, args, " ");
    out.append("\n");
    assert(out@ =~= joined(args@, " "@) + "\n"@);
    out
}

/// What the diagnostic logger writes: `name(` then the arguments joined by `, `,
/// then `)` and a newline.
pub fn logger_line(name: &str, args: &Vec<String>) -> (r: String)
    ensures
        r@ == name@ + "("@ + joined(args@, ", "@) + ")\n"@,
{
    let mut out = String::new();
    out.append(name);
    out.append("(");
    append_joined(&mut out, args, ", ");
    out.append(")\n");
    assert(out@ =~= name@ + "("@ + joined(args@, ", "@) + ")\n"@);
    out
}

} // verus!
