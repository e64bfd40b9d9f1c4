//! The sequence compiler: one callable unit for each sequence, all in one
//! text, so that sequences can call each other whatever their order.
use crate::ast::{Sequence, Sequences, Struct};
use crate::emitter::{line, Writer, WriterView};
use crate::expr::{ExprError, ExprFault, Fault};
use crate::scope::{is_debug_access_variable, var_path, var_path_text, Locals};
use crate::seqs::{lemma_concat_assoc, lemma_concat_empty, lemma_take_ends, lemma_take_step};
use crate::structure::{body_fault, body_locals, body_text, gen_body, lemma_body_keeps_local};
use vstd::prelude::*;
use vstd::string::StringExecFns;

verus! {

/// Why a translation was given up, and where.
#[derive(Debug, PartialEq, Eq)]
pub struct GenError {
    /// The name of the sequence that could not be translated.
    pub sequence: String,
    /// What is wrong with the call that could not be translated.
    pub cause: ExprError,
    /// The way from the nodes of the sequence to that call: see [`Fault`].
    pub path: Vec<usize>,
}

impl GenError {
    /// The fault that the error reports.
    pub open spec fn fault(&self) -> Fault {
        Fault { kind: self.cause, path: self.path@ }
    }
}

/// The name of the result variable that every unit owns. The unit declares
/// it with the value zero and returns it. In the nodes of the unit the name
/// is local from the start, like a declared name.
pub open spec fn result_name() -> Seq<char> {
    "__Result"@
}

/// The path of the result variable: that of a local of its name. The unit
/// declares and returns the variable under this path, and the nodes of the
/// unit read and assign it under the same.
pub open spec fn result_path() -> Seq<char> {
    var_path_text(result_name(), unit_locals())
}

/// The local names at the start of a unit.
pub open spec fn unit_locals() -> Set<Seq<char>> {
    Set::<Seq<char>>::empty().insert(result_name())
}

/// The unit for the sequence called `name` with the nodes `body`, at depth
/// `depth`: a function of the session that declares the result variable,
/// runs the nodes and returns the result. An empty line follows it.
pub open spec fn sequence_text(name: Seq<char>, body: Seq<Struct>, depth: nat) -> Seq<char> {
    line("fn s_"@ + name + "(ctx) {"@, depth) + line(
        "let "@ + result_path() + " = 0;"@,
        depth + 1,
    ) + body_text(body, unit_locals(), depth + 1) + line(result_path(), depth + 1) + line(
        "}"@,
        depth,
    ) + line(""@, depth)
}

/// The units of `sequences`, in their order.
pub open spec fn sequences_text(sequences: Seq<(String, Sequence)>) -> Seq<char>
    decreases sequences.len(),
{
    if sequences.len() == 0 {
        Seq::empty()
    } else {
        sequences_text(sequences.drop_last()) + sequence_text(
            sequences.last().0@,
            sequences.last().1.body@,
            0,
        )
    }
}

/// The first fault among `sequences`, with the name of the sequence that has
/// it.
pub open spec fn sequences_fault(sequences: Seq<(String, Sequence)>) -> Option<
    (Seq<char>, Fault),
>
    decreases sequences.len(),
{
    if sequences.len() == 0 {
        None
    } else if sequences_fault(sequences.drop_last()) is Some {
        sequences_fault(sequences.drop_last())
    } else {
        match body_fault(sequences.last().1.body@) {
            Some(cause) => Some((sequences.last().0@, cause)),
            None => None,
        }
    }
}

/// The result variable is one variable. Its path is that of a local binding,
/// and wherever its name is local it resolves to that path: at the start of
/// the unit, and behind whatever nodes `before` of the unit.
pub proof fn lemma_result_is_one_variable(before: Seq<Struct>, locals: Set<Seq<char>>)
    requires
        locals.contains(result_name()),
    ensures
        !is_debug_access_variable(result_name()),
        result_path() == "l_"@ + result_name(),
        var_path_text(result_name(), locals) == result_path(),
        var_path_text(result_name(), body_locals(before, unit_locals())) == result_path(),
{
    reveal_strlit("__Result");
    reveal_strlit("__protocol");
    reveal_strlit("__connection");
    reveal_strlit("__dp");
    reveal_strlit("__ap");
    reveal_strlit("__apid");
    reveal_strlit("__traceout");
    reveal_strlit("__errorcontrol");
    reveal_strlit("__FlashOp");
    reveal_strlit("__FlashAddr");
    reveal_strlit("__FlashLen");
    reveal_strlit("__FlashArg");
    assert(result_name().len() == 8);
    assert("__protocol"@.len() == 10);
    assert("__connection"@.len() == 12);
    assert("__dp"@.len() == 4);
    assert("__ap"@.len() == 4);
    assert("__apid"@.len() == 6);
    assert("__traceout"@.len() == 10);
    assert("__errorcontrol"@.len() == 14);
    assert("__FlashOp"@.len() == 9);
    assert("__FlashAddr"@.len() == 11);
    assert("__FlashLen"@.len() == 10);
    assert("__FlashArg"@.len() == 10);
    lemma_body_keeps_local(before, unit_locals(), result_name());
}

/// A fault among the first sequences is the fault of them all.
pub proof fn lemma_sequences_fault_prefix(sequences: Seq<(String, Sequence)>, k: int)
    requires
        0 <= k <= sequences.len(),
        sequences_fault(sequences.take(k)) is Some,
    ensures
        sequences_fault(sequences) == sequences_fault(sequences.take(k)),
    decreases sequences.len() - k,
{
    if k == sequences.len() {
        lemma_take_ends(sequences);
    } else {
        lemma_take_step(sequences, k);
        lemma_sequences_fault_prefix(sequences, k + 1);
    }
}

/// Translates the nodes `body` of the sequence called `name` into a unit and
/// writes it to `w`, which stands at the start of a line.
///
/// On a fault nothing is promised of what `w` holds.
pub fn gen_sequence(w: &mut Writer, name: &str, body: &Vec<Struct>) -> (r: Result<(), ExprFault>)
    requires
        old(w)@.line_start,
    ensures
        match r {
            Ok(_) => {
                &&& body_fault(body@) is None
                &&& final(w)@ == old(w)@.append(sequence_text(name@, body@, old(w)@.depth))
            },
            Err(e) => body_fault(body@) == Some(e@),
        },
{
    let ghost depth = w@.depth;
    let ghost top = old(w)@.text;
    let ghost open = line("fn s_"@ + name@ + "(ctx) {"@, depth);
    let ghost declare = line("let "@ + result_path() + " = 0;"@, depth + 1);
    let ghost nodes = body_text(body@, unit_locals(), depth + 1);
    let ghost result = line(result_path(), depth + 1);
    let ghost close = line("}"@, depth);
    let ghost gap = line(""@, depth);
    let head = String::from_str("fn s_").concat(name).concat("(ctx) {");
    w.write_line(head.as_str());
    w.indent();
    let mut locals = Locals::new();
    locals.insert("__Result");
    let path = var_path("__Result", &locals);
    let declaration = String::from_str("let ").concat(path.as_str()).concat(" = 0;");
    w.write_line(declaration.as_str());
    gen_body(w, body, &mut locals)?;
    w.write_line(path.as_str());
    w.outdent();
    w.write_line("}");
    w.write_line("");
    proof {
        assert(w@.text == top + open + declare + nodes + result + close + gap);
        lemma_concat_assoc(top, open, declare);
        lemma_concat_assoc(top, open + declare, nodes);
        lemma_concat_assoc(top, open + declare + nodes, result);
        lemma_concat_assoc(top, open + declare + nodes + result, close);
        lemma_concat_assoc(top, open + declare + nodes + result + close, gap);
    }
    Ok(())
}

/// Translates every sequence of `sequences` and returns the script: the
/// units of all of them, in their order, in one text.
///
/// The translation is given up at the first sequence with a fault. The error
/// names that sequence and says what the fault is.
pub fn gen_sequences(sequences: &Sequences) -> (r: Result<String, GenError>)
    ensures
        match r {
            Ok(text) => {
                &&& sequences_fault(sequences.0@) is None
                &&& text@ == sequences_text(sequences.0@)
            },
            Err(e) => sequences_fault(sequences.0@) == Some((e.sequence@, e.fault())),
        },
{
    let mut w = Writer::new();
    let ghost all = sequences.0@;
    let mut i: usize = 0;
    proof {
        lemma_take_ends(all);
        lemma_concat_empty(w@.text);
    }
    while i < sequences.0.len()
        invariant
            i <= sequences.0.len(),
            all == sequences.0@,
            sequences_fault(all.take(i as int)) is None,
            w@ == WriterView::fresh(0).append(sequences_text(all.take(i as int))),
        decreases sequences.0.len() - i,
    {
        let ghost before = all.take(i as int);
        let ghost upto = all.take(i + 1);
        proof {
            lemma_take_step(all, i as int);
        }
        let name = &sequences.0[i].0;
        let sequence = &sequences.0[i].1;
        match gen_sequence(&mut w, name.as_str(), &sequence.body) {
            Ok(_) => {},
            Err(fault) => {
                proof {
                    assert(sequences_fault(upto) == Some((name@, fault@)));
                    lemma_sequences_fault_prefix(all, i + 1);
                }
                return Err(
                    GenError { sequence: name.clone(), cause: fault.kind, path: fault.path },
                );
            },
        }
        proof {
            assert(sequences_fault(upto) is None);
            lemma_concat_assoc(
                Seq::<char>::empty(),
                sequences_text(before),
                sequence_text(name@, sequence.body@, 0),
            );
        }
        i += 1;
    }
    proof {
        lemma_take_ends(all);
        lemma_concat_empty(sequences_text(all));
    }
    Ok(w.end())
}

} // verus!
