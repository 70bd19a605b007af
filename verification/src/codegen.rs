//! Generation of the script-side glue text: the namespace preamble that
//! exposes registered functions by their bare names, and the async wrapper
//! block.

use vstd::prelude::*;

use crate::FunctionDefinition;

verus! {

/// The namespace binding line generated for one function definition: an
/// async function is aliased from the runtime's async function table, a
/// sync one from its plain function table.
pub open spec fn spec_bridge_line(f: FunctionDefinition) -> Seq<char> {
    if f.is_async {
        " let "@ + f.name@ + " = rustyscript.async_functions['"@ + f.name@ + "'];"@
    } else {
        " let "@ + f.name@ + " = rustyscript.functions['"@ + f.name@ + "'];"@
    }
}

/// The concatenation of the binding lines of all definitions, in order.
pub open spec fn spec_preamble(fns: Seq<FunctionDefinition>) -> Seq<char>
    decreases fns.len(),
{
    if fns.len() == 0 {
        Seq::empty()
    } else {
        spec_bridge_line(fns[0]) + spec_preamble(fns.drop_first())
    }
}

/// Extending the definitions by one extends the preamble by one line.
proof fn lemma_preamble_snoc(fns: Seq<FunctionDefinition>, i: int)
    requires
        0 <= i < fns.len(),
    ensures
        spec_preamble(fns.take(i + 1)) == spec_preamble(fns.take(i)) + spec_bridge_line(fns[i]),
    decreases i,
{
    let pre = fns.take(i + 1);
    assert(pre.len() == i + 1);
    if i == 0 {
        assert(pre.drop_first() =~= Seq::<FunctionDefinition>::empty());
        assert(fns.take(0) =~= Seq::<FunctionDefinition>::empty());
        assert(spec_preamble(pre) == spec_bridge_line(fns[0]) + Seq::<char>::empty());
        assert(spec_preamble(pre) =~= Seq::<char>::empty() + spec_bridge_line(fns[0]));
    } else {
        lemma_preamble_snoc(fns.drop_first(), i - 1);
        assert(pre.drop_first() =~= fns.drop_first().take(i));
        assert(fns.take(i).drop_first() =~= fns.drop_first().take(i - 1));
        assert(fns.drop_first()[i - 1] == fns[i]);
        assert(spec_preamble(fns.take(i + 1)) =~= spec_preamble(fns.take(i)) + spec_bridge_line(
            fns[i],
        ));
    }
}

/// Builds one binding line.
fn bridge_line(f: &FunctionDefinition) -> (r: String)
    ensures
        r@ == spec_bridge_line(*f),
{
    let mut line = String::from_str(" let ");
    line.append(f.name.as_str());
    if f.is_async {
        line.append(" = rustyscript.async_functions['");
    } else {
        line.append(" = rustyscript.functions['");
    }
    line.append(f.name.as_str());
    line.append("'];");
    line
}

/// Builds the whole preamble, one binding line per definition, in order.
pub fn append_preamble(fns: &Vec<FunctionDefinition>) -> (r: String)
    ensures
        r@ == spec_preamble(fns@),
{
    let mut out = String::new();
    let n = fns.len();
    let mut i: usize = 0;
    while i < n
        invariant
            n == fns@.len(),
            i <= n,
            out@ == spec_preamble(fns@.take(i as int)),
        decreases n - i,
    {
        let line = bridge_line(&fns[i]);
        out.append(line.as_str());
        proof {
            lemma_preamble_snoc(fns@, i as int);
        }
        i = i + 1;
    }
    proof {
        assert(fns@.take(n as int) =~= fns@);
    }
    out
}

/// Wraps a snippet in an immediately-invoked async block that logs and
/// rethrows any error raised while the snippet runs.
pub fn wrap_async_text(code: &str) -> (r: String)
    ensures
        r@ == "\n(async () => {\n    try {\n        "@ + code@
            + "\n    } catch (error) {\n        console.log('Error in code execution:', error);\n        throw error;\n    }\n})()\n"@,
{
    let mut out = String::from_str("\n(async () => {\n    try {\n        ");
    out.append(code);
    out.append(
        "\n    } catch (error) {\n        console.log('Error in code execution:', error);\n        throw error;\n    }\n})()\n",
    );
    out
}

} // verus!
