//! Building a block of a function.
use crate::codegen_cx::CodegenCx;
use crate::state::State;
use rspirv::spirv::Word;
use vstd::prelude::*;

verus! {

/// A translation context with a block to append instructions to.
pub struct BlockBuilder {
    pub cx: CodegenCx,
}

impl View for BlockBuilder {
    type V = State;

    open spec fn view(&self) -> State {
        self.cx@
    }
}

impl BlockBuilder {
    /// Begins a function of the given type, and a block in it.
    pub fn begin(cx: CodegenCx, return_type: Word, function_type: Word) -> (r: BlockBuilder)
        requires
            cx.wf(),
            cx@.module.function is None,
            cx@.module.next_id + 2 <= Word::MAX,
        ensures
            r@ == cx@.function_block(return_type, function_type),
            r.wf(),
    {
        let mut cx = cx;
        cx.begin_function_block(return_type, function_type);
        BlockBuilder { cx }
    }

    /// What holds of every block builder.
    pub open spec fn wf(&self) -> bool {
        &&& self.cx.wf()
        &&& self.cx@.module.block is Some
    }
}

} // verus!
