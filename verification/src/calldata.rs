use vstd::prelude::*;
use crate::field::{literal_value, valid_felt_literal, EncodingError, Felt};
use crate::starkhash::{selector_from_name, selector_of};

verus! {

/// The calldata of an entry-point call: callee address, selector, argument
/// count, then the arguments in caller order.
#[derive(Clone, Debug, PartialEq, Eq)]
pub struct Calldata {
    pub elements: Vec<Felt>,
}

impl View for Calldata {
    type V = Seq<nat>;

    open spec fn view(&self) -> Seq<nat> {
        self.elements@.map_values(|f: Felt| f@)
    }
}

/// The values denoted by a sequence of literals.
pub open spec fn arg_values(args: Seq<&str>) -> Seq<nat> {
    args.map_values(|a: &str| literal_value(a@))
}

/// Assembles the calldata of an entry-point call, in the exact order the
/// dispatcher expects: callee address, entry-point selector, argument count,
/// then each argument. Fails exactly when the callee or some argument is not
/// a valid field-element literal; no partial calldata is produced.
pub fn invoke_calldata(contract: &str, entry_point: &str, calldata: Vec<&str>) -> (r: Result<
    Calldata,
    EncodingError,
>)
    ensures
        r is Ok <==> (valid_felt_literal(contract@) && (forall|i: int|
            0 <= i < calldata@.len() ==> valid_felt_literal(calldata@[i]@))),
        r matches Ok(c) ==> c@ == seq![
            literal_value(contract@),
            selector_of(entry_point@),
            calldata@.len() as nat,
        ] + arg_values(calldata@),
{
    let entry_point_selector = selector_from_name(entry_point);
    let callee = match Felt::from_literal(contract) {
        Ok(f) => f,
        Err(e) => {
            return Err(e);
        },
    };
    let mut elements: Vec<Felt> = Vec::new();
    elements.push(callee);
    elements.push(entry_point_selector);
    elements.push(Felt::from_u64(calldata.len() as u64));
    let ghost head = seq![
        literal_value(contract@),
        selector_of(entry_point@),
        calldata@.len() as nat,
    ];
    let mut i: usize = 0;
    while i < calldata.len()
        invariant
            i <= calldata.len(),
            elements@.len() == i + 3,
            elements@[0]@ == literal_value(contract@),
            elements@[1]@ == selector_of(entry_point@),
            elements@[2]@ == calldata@.len() as nat,
            forall|j: int|
                0 <= j < i ==> (#[trigger] elements@[j + 3])@ == literal_value(calldata@[j]@),
            forall|j: int| 0 <= j < i ==> valid_felt_literal(#[trigger] calldata@[j]@),
        decreases calldata.len() - i,
    {
        match Felt::from_literal(calldata[i]) {
            Ok(f) => {
                elements.push(f);
            },
            Err(e) => {
                return Err(e);
            },
        }
        i += 1;
    }
    let r = Calldata { elements };
    proof {
        let full = head + arg_values(calldata@);
        assert forall|j: int| 0 <= j < full.len() implies r@[j] == full[j] by {
            assert(r@[j] == r.elements@[j]@);
            if j >= 3 {
                assert(arg_values(calldata@)[j - 3] == literal_value(calldata@[j - 3]@));
                assert(r.elements@[(j - 3) + 3]@ == literal_value(calldata@[j - 3]@));
            }
        }
        assert(r@ =~= full);
    }
    Ok(r)
}

} // verus!
