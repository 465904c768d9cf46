//! The state of code generation: the symbolic stack, the scope frames with
//! their variables, the label counters, the loop labels and the registry.

use crate::codegen::CodegenError;
use crate::text::{decimal, decimal_string, framed, hex_padded, hex_string};
use crate::type_registry::TypeRegistry;
use vstd::hash_map::StringHashMap;
use vstd::prelude::*;
use vstd::string::StringExecFns;

verus! {

/// The most slots that the symbolic stack may hold: eight times as much
/// still fits a 64-bit byte offset.
pub const MAX_SLOTS: u64 = 0x1fff_ffff_ffff_ffff;

/// Where a variable lives in its frame, and whether it may be assigned to.
#[derive(Clone, Copy, Debug)]
pub struct VariableMeta {
    pub stack_frame_offset: u64,
    pub is_mutable: bool,
}

impl Default for VariableMeta {
    fn default() -> (meta: Self)
        ensures
            meta.stack_frame_offset == 0,
            !meta.is_mutable,
    {
        VariableMeta { stack_frame_offset: 0, is_mutable: false }
    }
}

/// The mathematical value of a [`VariableMeta`]: the slot as a number of
/// slots from the base of the frame, the base slot being 1.
pub struct VariableView {
    pub offset: nat,
    pub is_mutable: bool,
}

impl View for VariableMeta {
    type V = VariableView;

    open spec fn view(&self) -> VariableView {
        VariableView { offset: self.stack_frame_offset as nat, is_mutable: self.is_mutable }
    }
}

/// One lexical scope: the slots it holds and the variables it declares.
pub struct VariableFrame {
    stack_size: u64,
    variables: StringHashMap<VariableMeta>,
    is_function: bool,
}

/// The mathematical value of a [`VariableFrame`].
pub struct FrameView {
    pub size: nat,
    pub variables: Map<Seq<char>, VariableView>,
    /// Whether the frame was opened for the return address and the
    /// arguments of a function.
    pub is_function: bool,
}

impl FrameView {
    /// A frame of `size` slots that declares nothing.
    pub open spec fn sized(size: nat) -> FrameView {
        FrameView { size, variables: Map::empty(), is_function: false }
    }

    /// The frame with `name` bound to the slot at `offset`.
    pub open spec fn with_variable(self, name: Seq<char>, offset: nat, is_mutable: bool) -> FrameView {
        FrameView {
            size: self.size,
            variables: self.variables.insert(name, VariableView { offset, is_mutable }),
            is_function: self.is_function,
        }
    }

    /// The frame with its size replaced.
    pub open spec fn resized(self, size: nat) -> FrameView {
        FrameView { size, variables: self.variables, is_function: self.is_function }
    }
}

impl View for VariableFrame {
    type V = FrameView;

    closed spec fn view(&self) -> FrameView {
        FrameView {
            size: self.stack_size as nat,
            variables: Map::new(
                |name: Seq<char>| self.variables@.contains_key(name),
                |name: Seq<char>| self.variables@[name]@,
            ),
            is_function: self.is_function,
        }
    }
}

impl VariableFrame {
    /// A frame of `size` slots that declares nothing.
    pub fn with_size(size: u64) -> (frame: Self)
        ensures
            frame@ == FrameView::sized(size as nat),
    {
        let frame = VariableFrame {
            stack_size: size,
            variables: StringHashMap::new(),
            is_function: false,
        };
        assert(frame@.variables =~= Map::<Seq<char>, VariableView>::empty());
        frame
    }

    /// The number of slots that the frame holds.
    pub fn size(&self) -> (size: u64)
        ensures
            size == self@.size,
    {
        self.stack_size
    }
}

impl Default for VariableFrame {
    fn default() -> (frame: Self)
        ensures
            frame@ == FrameView::sized(0),
    {
        VariableFrame::with_size(0)
    }
}

/// The slots of all the frames together.
pub open spec fn total_size(frames: Seq<FrameView>) -> nat
    decreases frames.len(),
{
    if frames.len() == 0 {
        0
    } else {
        total_size(frames.drop_last()) + frames.last().size
    }
}

/// How far below the top of the stack the slot of `name` lies: the innermost
/// frame that declares `name` decides, and the frames above it are passed
/// over whole. `None` where no frame declares it, or where its slot lies
/// beyond what its frame still holds.
pub open spec fn slot_of(frames: Seq<FrameView>, name: Seq<char>) -> Option<nat>
    decreases frames.len(),
{
    if frames.len() == 0 {
        None
    } else {
        let top = frames.last();
        if top.variables.contains_key(name) {
            let offset = top.variables[name].offset;
            if offset <= top.size {
                Some((top.size - offset) as nat)
            } else {
                None
            }
        } else {
            match slot_of(frames.drop_last(), name) {
                Some(below) => Some(below + top.size),
                None => None,
            }
        }
    }
}

/// Whether the innermost declaration of `name` is mutable; `None` where no
/// frame declares it.
pub open spec fn mutability_of(frames: Seq<FrameView>, name: Seq<char>) -> Option<bool>
    decreases frames.len(),
{
    if frames.len() == 0 {
        None
    } else if frames.last().variables.contains_key(name) {
        Some(frames.last().variables[name].is_mutable)
    } else {
        mutability_of(frames.drop_last(), name)
    }
}

/// The frames with `name` declared in the innermost one, at `offset`; an
/// empty frame is opened first where there is none.
pub open spec fn declared_at(
    frames: Seq<FrameView>,
    name: Seq<char>,
    is_mutable: bool,
    offset: nat,
) -> Seq<FrameView> {
    if frames.len() == 0 {
        seq![FrameView::sized(0).with_variable(name, offset, is_mutable)]
    } else {
        frames.drop_last().push(frames.last().with_variable(name, offset, is_mutable))
    }
}

/// The frames with `name` declared in the innermost one, at the slot that
/// the frame's size names.
pub open spec fn declared(frames: Seq<FrameView>, name: Seq<char>, is_mutable: bool) -> Seq<
    FrameView,
> {
    if frames.len() == 0 {
        declared_at(frames, name, is_mutable, 0)
    } else {
        declared_at(frames, name, is_mutable, frames.last().size)
    }
}

/// `total_size` of a sequence with one more frame on top.
pub proof fn lemma_total_push(frames: Seq<FrameView>, frame: FrameView)
    ensures
        total_size(frames.push(frame)) == total_size(frames) + frame.size,
{
    assert(frames.push(frame).drop_last() =~= frames);
}

/// A frame holds no more than all the frames together.
pub proof fn lemma_total_bounds(frames: Seq<FrameView>, i: int)
    requires
        0 <= i < frames.len(),
    ensures
        frames[i].size <= total_size(frames),
        total_size(frames.take(i)) + frames[i].size <= total_size(frames),
    decreases frames.len(),
{
    if i == frames.len() - 1 {
        assert(frames.take(i) =~= frames.drop_last());
    } else {
        lemma_total_bounds(frames.drop_last(), i);
        assert(frames.drop_last().take(i) =~= frames.take(i));
    }
}

/// The stack of scope frames, innermost last.
pub struct VariableStack(Vec<VariableFrame>);

impl View for VariableStack {
    type V = Seq<FrameView>;

    closed spec fn view(&self) -> Seq<FrameView> {
        Seq::new(self.0@.len(), |i: int| self.0@[i]@)
    }
}

impl VariableStack {
    /// A stack without frames.
    pub fn new() -> (stack: Self)
        ensures
            stack@ == Seq::<FrameView>::empty(),
    {
        let stack = VariableStack(Vec::new());
        assert(stack@ =~= Seq::<FrameView>::empty());
        stack
    }

    /// Puts `frame` on top.
    pub fn push(&mut self, frame: VariableFrame)
        ensures
            final(self)@ == old(self)@.push(frame@),
    {
        self.0.push(frame);
        assert(self@ =~= old(self)@.push(frame@));
    }

    /// Takes the innermost frame off, if there is one.
    pub fn pop(&mut self) -> (frame: Option<VariableFrame>)
        ensures
            match frame {
                Some(frame) => old(self)@.len() > 0 && frame@ == old(self)@.last() && final(self)@
                    == old(self)@.drop_last(),
                None => old(self)@.len() == 0 && final(self)@ == old(self)@,
            },
    {
        let frame = self.0.pop();
        assert(frame is Some ==> self@ =~= old(self)@.drop_last());
        frame
    }

    /// The innermost frame, if there is one.
    pub fn peek(&self) -> (frame: Option<&VariableFrame>)
        ensures
            match frame {
                Some(frame) => self@.len() > 0 && frame@ == self@.last(),
                None => self@.len() == 0,
            },
    {
        let depth = self.0.len();
        if depth == 0 {
            None
        } else {
            Some(&self.0[depth - 1])
        }
    }

    /// The number of frames.
    pub fn depth(&self) -> (depth: usize)
        ensures
            depth == self@.len(),
    {
        self.0.len()
    }

    /// Declares `name` in the innermost frame at the slot that the frame's
    /// size names, in place of an earlier declaration of that name there.
    pub fn declare_variable(&mut self, name: String, is_mutable: bool)
        ensures
            final(self)@ == declared(old(self)@, name@, is_mutable),
    {
        let offset = match self.peek() {
            Some(frame) => frame.stack_size,
            None => 0,
        };
        self.declare_variable_at(name, is_mutable, offset)
    }

    /// Declares `name` in the innermost frame at the slot `offset`.
    pub fn declare_variable_at(&mut self, name: String, is_mutable: bool, offset: u64)
        ensures
            final(self)@ == declared_at(old(self)@, name@, is_mutable, offset as nat),
    {
        let mut frame = match self.0.pop() {
            Some(frame) => frame,
            None => VariableFrame::default(),
        };
        let ghost before = frame@;
        frame.variables.insert(name, VariableMeta { stack_frame_offset: offset, is_mutable });
        assert(frame@.variables =~= before.with_variable(
            name@,
            offset as nat,
            is_mutable,
        ).variables);
        self.0.push(frame);
        assert(self@ =~= declared_at(old(self)@, name@, is_mutable, offset as nat));
    }

    /// How far below the top of the stack the slot of `name` lies.
    pub fn get_offset(&self, name: &str) -> (offset: Option<u64>)
        requires
            total_size(self@) <= u64::MAX,
        ensures
            match offset {
                Some(slots) => slot_of(self@, name@) == Some(slots as nat),
                None => slot_of(self@, name@) is None,
            },
    {
        let mut i: usize = self.0.len();
        let mut passed: u64 = 0;
        assert(self@.take(i as int) =~= self@);
        while i > 0
            invariant
                i <= self.0.len(),
                total_size(self@) <= u64::MAX,
                total_size(self@.take(i as int)) + passed <= total_size(self@),
                slot_of(self@, name@) == match slot_of(self@.take(i as int), name@) {
                    Some(below) => Some((below + passed) as nat),
                    None => None,
                },
            decreases i,
        {
            let frame = &self.0[i - 1];
            proof {
                assert(self@.take(i as int).drop_last() =~= self@.take(i - 1));
                assert(self@.take(i as int).last() == frame@);
            }
            match frame.variables.get(name) {
                Some(meta) => {
                    if meta.stack_frame_offset <= frame.stack_size {
                        return Some(frame.stack_size - meta.stack_frame_offset + passed);
                    } else {
                        return None;
                    }
                },
                None => {
                    passed = passed + frame.stack_size;
                },
            }
            i -= 1;
        }
        None
    }

    /// Whether the innermost declaration of `name` is mutable.
    pub fn is_mutable(&self, name: &str) -> (mutable: Option<bool>)
        ensures
            mutable == mutability_of(self@, name@),
    {
        let mut i: usize = self.0.len();
        assert(self@.take(i as int) =~= self@);
        while i > 0
            invariant
                i <= self.0.len(),
                mutability_of(self@, name@) == mutability_of(self@.take(i as int), name@),
            decreases i,
        {
            let frame = &self.0[i - 1];
            proof {
                assert(self@.take(i as int).drop_last() =~= self@.take(i - 1));
                assert(self@.take(i as int).last() == frame@);
            }
            match frame.variables.get(name) {
                Some(meta) => {
                    return Some(meta.is_mutable);
                },
                None => {},
            }
            i -= 1;
        }
        None
    }

    /// The slots above the frame of the innermost function that was
    /// entered, and the size of that frame.
    fn function_frame(&self) -> (found: Option<(u64, u64)>)
        requires
            total_size(self@) <= u64::MAX,
        ensures
            match found {
                Some((above, size)) => enclosing_function(self@) == Some(
                    (above as nat, size as nat),
                ),
                None => enclosing_function(self@) is None,
            },
    {
        let mut i: usize = self.0.len();
        let mut passed: u64 = 0;
        assert(self@.take(i as int) =~= self@);
        while i > 0
            invariant
                i <= self.0.len(),
                total_size(self@) <= u64::MAX,
                total_size(self@.take(i as int)) + passed <= total_size(self@),
                enclosing_function(self@) == match enclosing_function(self@.take(i as int)) {
                    Some((above, size)) => Some(((above + passed) as nat, size)),
                    None => None,
                },
            decreases i,
        {
            let frame = &self.0[i - 1];
            proof {
                assert(self@.take(i as int).drop_last() =~= self@.take(i - 1));
                assert(self@.take(i as int).last() == frame@);
            }
            if frame.is_function {
                return Some((passed, frame.stack_size));
            }
            passed = passed + frame.stack_size;
            i -= 1;
        }
        None
    }

    /// Gives the innermost frame `size` slots.
    fn resize_top(&mut self, size: u64)
        requires
            old(self)@.len() > 0,
        ensures
            final(self)@ == old(self)@.drop_last().push(old(self)@.last().resized(size as nat)),
    {
        let mut frame = self.0.pop().unwrap();
        frame.stack_size = size;
        self.0.push(frame);
        assert(self@ =~= old(self)@.drop_last().push(old(self)@.last().resized(size as nat)));
    }
}

/// The labels of the innermost loop: where `continue` and `break` jump to.
#[derive(Debug)]
pub struct LabelFrame {
    pub start: String,
    pub end: String,
}

/// The mathematical value of a [`LabelFrame`].
pub struct LabelView {
    pub start: Seq<char>,
    pub end: Seq<char>,
}

impl View for LabelFrame {
    type V = LabelView;

    open spec fn view(&self) -> LabelView {
        LabelView { start: self.start@, end: self.end@ }
    }
}

impl Clone for LabelFrame {
    fn clone(&self) -> (copy: Self)
        ensures
            copy == *self,
    {
        LabelFrame { start: self.start.clone(), end: self.end.clone() }
    }
}

impl vstd::std_specs::convert::FromSpecImpl<(String, String)> for LabelFrame {
    open spec fn obeys_from_spec() -> bool {
        true
    }

    open spec fn from_spec(labels: (String, String)) -> LabelFrame {
        LabelFrame { start: labels.0, end: labels.1 }
    }
}

impl From<(String, String)> for LabelFrame {
    fn from(labels: (String, String)) -> (frame: Self) {
        LabelFrame { start: labels.0, end: labels.1 }
    }
}

/// `    push OPERAND`, as a line.
pub open spec fn push_text(operand: Seq<char>) -> Seq<char> {
    "    push "@ + operand + "\n"@
}

/// `    pop OPERAND`, as a line.
pub open spec fn pop_text(operand: Seq<char>) -> Seq<char> {
    "    pop "@ + operand + "\n"@
}

/// The memory operand of the slot that lies `slots` below the top.
pub open spec fn slot_operand(slots: nat) -> Seq<char> {
    "qword [rsp + "@ + decimal(slots * 8) + "]"@
}

/// The line that stores `source` in the slot that lies `slots` below the top.
pub open spec fn store_text(slots: nat, source: Seq<char>) -> Seq<char> {
    "    mov qword [rsp + "@ + decimal(slots * 8) + "], "@ + source + "\n"@
}

/// The line that gives up the top `slots` slots.
pub open spec fn release_text(slots: nat) -> Seq<char> {
    "    add rsp, "@ + decimal(slots * 8) + "\n"@
}

/// The label with the tag `tag` and the number `count`.
pub open spec fn label_text(tag: Seq<char>, count: nat) -> Seq<char> {
    tag + hex_padded(count, 8)
}

/// What ends a function whose body ran to its end: the `locals` slots of the
/// body go, the top slot is loaded, the `params` slots of the arguments and
/// the return address go, and the loaded slot is put back for `ret`.
pub open spec fn epilogue_text(locals: nat, params: nat) -> Seq<char> {
    release_text(locals) + "    mov rbx, [rsp]\n"@ + release_text(params) + "    push rbx\n"@
        + "    ret\n"@
}

/// What returns the value held in `rax` from inside a function: the `locals`
/// slots above the frame of the function go, the return address is taken,
/// the `arguments` slots go, and the value is left on top for the caller,
/// under the return address that `ret` consumes.
pub open spec fn return_text(locals: nat, arguments: nat) -> Seq<char> {
    release_text(locals) + "    pop rbx\n"@ + release_text(arguments) + "    push rax\n"@
        + "    push rbx\n"@ + "    ret\n"@
}

/// The variables that the first `count` of the parameters `names` declare:
/// the parameter at index `i` at the slot `i + 1` from the base of the
/// frame, where the caller pushed the argument at index `i`; immutable, a
/// later one in place of an earlier one of the same name.
pub open spec fn parameters_bound(names: Seq<Seq<char>>, count: nat) -> Map<Seq<char>, VariableView>
    decreases count,
{
    if count == 0 {
        Map::empty()
    } else {
        parameters_bound(names, (count - 1) as nat).insert(
            names[count - 1],
            VariableView { offset: count, is_mutable: false },
        )
    }
}

/// The frame that a function with the parameters `names` is entered with:
/// one slot for each argument, the first deepest, and one on top of them
/// for the return address.
pub open spec fn parameters_frame(names: Seq<Seq<char>>) -> FrameView {
    FrameView {
        size: 1 + names.len(),
        variables: parameters_bound(names, names.len()),
        is_function: true,
    }
}

/// The slots that lie above the frame of the innermost function that was
/// entered, and the size of that frame; `None` where no function was
/// entered.
pub open spec fn enclosing_function(frames: Seq<FrameView>) -> Option<(nat, nat)>
    decreases frames.len(),
{
    if frames.len() == 0 {
        None
    } else if frames.last().is_function {
        Some((0nat, frames.last().size))
    } else {
        match enclosing_function(frames.drop_last()) {
            Some((above, size)) => Some((above + frames.last().size, size)),
            None => None,
        }
    }
}

/// The frame of a function and what lies above it are part of the stack.
pub proof fn lemma_enclosing_function_bound(frames: Seq<FrameView>)
    ensures
        enclosing_function(frames) matches Some((above, size)) ==> above + size <= total_size(
            frames,
        ),
    decreases frames.len(),
{
    if frames.len() > 0 {
        lemma_enclosing_function_bound(frames.drop_last());
    }
}

/// The mathematical value of a [`Context`].
pub struct ContextView {
    /// The height of the symbolic stack, in slots.
    pub height: nat,
    /// The scope frames, innermost last.
    pub frames: Seq<FrameView>,
    /// The next number of each label tag that was used.
    pub labels: Map<Seq<char>, u64>,
    /// The labels of the enclosing loops, innermost last.
    pub regions: Seq<LabelView>,
    /// The parameter names of each known function.
    pub functions: Map<Seq<char>, Seq<Seq<char>>>,
}

impl ContextView {
    /// The state that code generation starts in.
    pub open spec fn initial(functions: Map<Seq<char>, Seq<Seq<char>>>) -> ContextView {
        ContextView {
            height: 0,
            frames: Seq::empty(),
            labels: Map::empty(),
            regions: Seq::empty(),
            functions,
        }
    }

    /// The height is the sum of the frames' sizes and within the limit.
    pub open spec fn wf(self) -> bool {
        self.height == total_size(self.frames) && self.height <= MAX_SLOTS
    }

    /// The state with other frames and another height.
    pub open spec fn with_stack(self, height: nat, frames: Seq<FrameView>) -> ContextView {
        ContextView {
            height,
            frames,
            labels: self.labels,
            regions: self.regions,
            functions: self.functions,
        }
    }

    /// The size of the innermost frame; 0 where there is none.
    pub open spec fn top_size(self) -> nat {
        if self.frames.len() == 0 {
            0
        } else {
            self.frames.last().size
        }
    }

    pub open spec fn can_push(self) -> bool {
        self.height < MAX_SLOTS
    }

    /// One slot more, in the innermost frame; a frame is opened for it where
    /// there is none.
    pub open spec fn pushed(self) -> ContextView {
        if self.frames.len() == 0 {
            self.with_stack(self.height + 1, seq![FrameView::sized(1)])
        } else {
            self.with_stack(
                self.height + 1,
                self.frames.drop_last().push(
                    self.frames.last().resized(self.frames.last().size + 1),
                ),
            )
        }
    }

    /// Whether the innermost frame holds `slots` slots.
    pub open spec fn holds(self, slots: nat) -> bool {
        self.frames.len() > 0 && self.frames.last().size >= slots
    }

    pub open spec fn can_pop(self) -> bool {
        self.holds(1)
    }

    /// `slots` slots fewer, in the innermost frame.
    pub open spec fn released(self, slots: nat) -> ContextView {
        self.with_stack(
            (self.height - slots) as nat,
            self.frames.drop_last().push(
                self.frames.last().resized((self.frames.last().size - slots) as nat),
            ),
        )
    }

    /// One slot fewer, in the innermost frame.
    pub open spec fn popped(self) -> ContextView {
        self.released(1)
    }

    /// A new, empty innermost frame.
    pub open spec fn entered(self) -> ContextView {
        self.with_stack(self.height, self.frames.push(FrameView::sized(0)))
    }

    /// The innermost frame gone, and its slots with it.
    pub open spec fn exited(self) -> ContextView {
        self.with_stack(
            (self.height - self.frames.last().size) as nat,
            self.frames.drop_last(),
        )
    }

    /// `name` declared in the innermost frame.
    pub open spec fn with_variable(self, name: Seq<char>, is_mutable: bool) -> ContextView {
        self.with_stack(self.height, declared(self.frames, name, is_mutable))
    }

    /// The number that the next label with the tag `tag` gets.
    pub open spec fn label_count(self, tag: Seq<char>) -> nat {
        if self.labels.contains_key(tag) {
            self.labels[tag] as nat
        } else {
            0
        }
    }

    pub open spec fn can_label(self, tag: Seq<char>) -> bool {
        self.label_count(tag) < u64::MAX
    }

    /// The counter of `tag` moved on by one.
    pub open spec fn with_label(self, tag: Seq<char>) -> ContextView {
        ContextView {
            height: self.height,
            frames: self.frames,
            labels: self.labels.insert(tag, (self.label_count(tag) + 1) as u64),
            regions: self.regions,
            functions: self.functions,
        }
    }

    /// The loop labels replaced.
    pub open spec fn with_regions(self, regions: Seq<LabelView>) -> ContextView {
        ContextView {
            height: self.height,
            frames: self.frames,
            labels: self.labels,
            regions,
            functions: self.functions,
        }
    }

    /// The labels of the innermost loop, if any.
    pub open spec fn region(self) -> Option<LabelView> {
        if self.regions.len() == 0 {
            None
        } else {
            Some(self.regions.last())
        }
    }

    /// Whether the known function `name` can be entered within the limit.
    pub open spec fn can_enter_function(self, name: Seq<char>) -> bool {
        self.height + 1 + self.functions[name].len() <= MAX_SLOTS
    }

    /// The frame of the parameters of `name` and an empty frame for its
    /// locals on top.
    pub open spec fn function_entered(self, name: Seq<char>) -> ContextView {
        self.with_stack(
            self.height + 1 + self.functions[name].len(),
            self.frames.push(parameters_frame(self.functions[name])).push(FrameView::sized(0)),
        )
    }

    /// Whether a function was entered and its frame still holds the return
    /// address.
    pub open spec fn in_function(self) -> bool {
        enclosing_function(self.frames) matches Some((above, size)) && size >= 1
    }

    /// The slots above the frame of the innermost function.
    pub open spec fn above_function(self) -> nat {
        enclosing_function(self.frames)->Some_0.0
    }

    /// The slots of the arguments of the innermost function.
    pub open spec fn arguments(self) -> nat {
        (enclosing_function(self.frames)->Some_0.1 - 1) as nat
    }
}

/// The codegen state.
pub struct Context {
    stack_size: u64,
    variables: VariableStack,
    label_counts: StringHashMap<u64>,
    label_stack: Vec<LabelFrame>,
    type_registry: TypeRegistry,
}

impl View for Context {
    type V = ContextView;

    closed spec fn view(&self) -> ContextView {
        ContextView {
            height: self.stack_size as nat,
            frames: self.variables@,
            labels: self.label_counts@,
            regions: Seq::new(self.label_stack@.len(), |i: int| self.label_stack@[i]@),
            functions: self.type_registry@,
        }
    }
}

/// The line that gives up the top `slots` slots.
fn release_line(slots: u64) -> (line: String)
    requires
        slots <= MAX_SLOTS,
    ensures
        line@ == release_text(slots as nat),
{
    let bytes = decimal_string(slots * 8);
    framed("    add rsp, ", bytes.as_str(), "\n")
}

impl Context {
    /// A context without frames, labels or loops, over `type_registry`.
    pub fn new(type_registry: TypeRegistry) -> (context: Self)
        ensures
            context@ == ContextView::initial(type_registry@),
            context@.wf(),
    {
        let context = Context {
            stack_size: 0,
            variables: VariableStack::new(),
            label_counts: StringHashMap::new(),
            label_stack: Vec::new(),
            type_registry,
        };
        assert(context@.regions =~= Seq::<LabelView>::empty());
        context
    }

    /// The height of the symbolic stack, in slots.
    pub fn stack_height(&self) -> (height: u64)
        ensures
            height == self@.height,
    {
        self.stack_size
    }

    /// The number of active scope frames.
    pub fn depth(&self) -> (depth: usize)
        ensures
            depth == self@.frames.len(),
    {
        self.variables.depth()
    }

    /// Whether one more slot stays within the limit.
    pub fn can_push(&self) -> (possible: bool)
        ensures
            possible == self@.can_push(),
    {
        self.stack_size < MAX_SLOTS
    }

    /// Whether the innermost frame holds `slots` slots.
    pub fn holds(&self, slots: u64) -> (held: bool)
        ensures
            held == self@.holds(slots as nat),
    {
        match self.variables.peek() {
            Some(frame) => frame.size() >= slots,
            None => false,
        }
    }

    /// Whether the innermost frame holds a slot to pop.
    pub fn can_pop(&self) -> (possible: bool)
        ensures
            possible == self@.can_pop(),
    {
        self.holds(1)
    }

    /// Accounts for one slot more, without emitting code.
    pub fn claim(&mut self)
        requires
            old(self)@.wf(),
            old(self)@.can_push(),
        ensures
            final(self)@ == old(self)@.pushed(),
            final(self)@.wf(),
    {
        proof {
            if self@.frames.len() > 0 {
                lemma_total_bounds(self@.frames, self@.frames.len() - 1);
                lemma_total_push(
                    self@.frames.drop_last(),
                    self@.frames.last().resized(self@.frames.last().size + 1),
                );
                assert(self@.frames.drop_last().push(self@.frames.last()) =~= self@.frames);
                lemma_total_push(self@.frames.drop_last(), self@.frames.last());
            } else {
                lemma_total_push(Seq::empty(), FrameView::sized(1));
                assert(Seq::<FrameView>::empty().push(FrameView::sized(1)) =~= seq![
                    FrameView::sized(1),
                ]);
            }
        }
        self.stack_size = self.stack_size + 1;
        match self.variables.peek() {
            Some(frame) => {
                let size = frame.size();
                self.variables.resize_top(size + 1);
            },
            None => {
                self.variables.push(VariableFrame::with_size(1));
                assert(self.variables@ =~= seq![FrameView::sized(1)]);
            },
        }
    }

    /// Accounts for `slots` slots fewer in the innermost frame, without
    /// emitting code.
    pub fn release(&mut self, slots: u64)
        requires
            old(self)@.wf(),
            old(self)@.holds(slots as nat),
        ensures
            final(self)@ == old(self)@.released(slots as nat),
            final(self)@.wf(),
    {
        proof {
            lemma_total_bounds(self@.frames, self@.frames.len() - 1);
            lemma_total_push(
                self@.frames.drop_last(),
                self@.frames.last().resized((self@.frames.last().size - slots) as nat),
            );
            assert(self@.frames.drop_last().push(self@.frames.last()) =~= self@.frames);
            lemma_total_push(self@.frames.drop_last(), self@.frames.last());
        }
        let size = match self.variables.peek() {
            Some(frame) => frame.size(),
            None => 0,
        };
        self.stack_size = self.stack_size - slots;
        self.variables.resize_top(size - slots);
    }

    /// Emits `push VALUE` and accounts for the slot.
    pub fn push(&mut self, value: &str) -> (code: String)
        requires
            old(self)@.wf(),
            old(self)@.can_push(),
        ensures
            code@ == push_text(value@),
            final(self)@ == old(self)@.pushed(),
            final(self)@.wf(),
    {
        self.claim();
        framed("    push ", value, "\n")
    }

    /// Emits `pop VALUE` and gives the slot up.
    pub fn pop(&mut self, value: &str) -> (code: String)
        requires
            old(self)@.wf(),
            old(self)@.can_pop(),
        ensures
            code@ == pop_text(value@),
            final(self)@ == old(self)@.popped(),
            final(self)@.wf(),
    {
        self.release(1);
        framed("    pop ", value, "\n")
    }

    /// Declares `identifier` in the innermost frame, at the slot on top of it.
    pub fn declare_variable(&mut self, identifier: String, is_mutable: bool)
        requires
            old(self)@.wf(),
        ensures
            final(self)@ == old(self)@.with_variable(identifier@, is_mutable),
            final(self)@.wf(),
    {
        proof {
            if self@.frames.len() > 0 {
                let top = self@.frames.last();
                lemma_total_push(
                    self@.frames.drop_last(),
                    top.with_variable(identifier@, top.size, is_mutable),
                );
                assert(self@.frames.drop_last().push(top) =~= self@.frames);
                lemma_total_push(self@.frames.drop_last(), top);
            } else {
                let frame = FrameView::sized(0).with_variable(identifier@, 0, is_mutable);
                lemma_total_push(Seq::empty(), frame);
                assert(Seq::<FrameView>::empty().push(frame) =~= seq![frame]);
            }
        }
        self.variables.declare_variable(identifier, is_mutable)
    }

    /// Whether `identifier` has a slot.
    pub fn has_variable(&self, identifier: &str) -> (found: bool)
        requires
            self@.wf(),
        ensures
            found == (slot_of(self@.frames, identifier@) is Some),
    {
        self.variables.get_offset(identifier).is_some()
    }

    /// Emits the push of a copy of the variable `identifier`; `None`, and
    /// nothing changed, where `identifier` has no slot.
    pub fn get_variable(&mut self, identifier: &str) -> (code: Option<String>)
        requires
            old(self)@.wf(),
            slot_of(old(self)@.frames, identifier@) is Some ==> old(self)@.can_push(),
        ensures
            final(self)@.wf(),
            match slot_of(old(self)@.frames, identifier@) {
                Some(slots) => code matches Some(text) && text@ == push_text(slot_operand(slots))
                    && final(self)@ == old(self)@.pushed(),
                None => code is None && final(self)@ == old(self)@,
            },
    {
        match self.variables.get_offset(identifier) {
            Some(slots) => {
                proof {
                    lemma_slot_bound(self@.frames, identifier@);
                }
                let bytes = decimal_string(slots * 8);
                let operand = framed("qword [rsp + ", bytes.as_str(), "]");
                Some(self.push(operand.as_str()))
            },
            None => None,
        }
    }

    /// Emits the store of `value` in the slot of the variable `identifier`.
    pub fn set_variable(&self, identifier: &str, value: &str) -> (code: Result<
        String,
        CodegenError,
    >)
        requires
            self@.wf(),
        ensures
            match code {
                Ok(text) => {
                    &&& mutability_of(self@.frames, identifier@) == Some(true)
                    &&& slot_of(self@.frames, identifier@) matches Some(slots)
                    &&& text@ == store_text(slots, value@)
                },
                Err(error) => match mutability_of(self@.frames, identifier@) {
                    None => error@ == crate::codegen::CodegenErrorView::IdentifierNotDeclared(
                        identifier@,
                    ),
                    Some(false) => error@
                        == crate::codegen::CodegenErrorView::ChangedImmutableVariable(identifier@),
                    Some(true) => slot_of(self@.frames, identifier@) is None && error@
                        == crate::codegen::CodegenErrorView::IdentifierNotDeclared(identifier@),
                },
            },
    {
        match self.variables.is_mutable(identifier) {
            None => {
                return Err(CodegenError::IdentifierNotDeclared(String::from_str(identifier)));
            },
            Some(false) => {
                return Err(CodegenError::ChangedImmutableVariable(String::from_str(identifier)));
            },
            Some(true) => {},
        }
        match self.variables.get_offset(identifier) {
            Some(slots) => {
                proof {
                    lemma_slot_bound(self@.frames, identifier@);
                }
                let bytes = decimal_string(slots * 8);
                let mut text = framed("    mov qword [rsp + ", bytes.as_str(), "], ");
                text.append(value);
                text.append("\n");
                Ok(text)
            },
            None => Err(CodegenError::IdentifierNotDeclared(String::from_str(identifier))),
        }
    }

    /// Whether the counter of `tag` can move on.
    pub fn can_label(&self, tag: &str) -> (possible: bool)
        ensures
            possible == self@.can_label(tag@),
    {
        match self.label_counts.get(tag) {
            Some(count) => *count < u64::MAX,
            None => true,
        }
    }

    /// A label that no earlier call with this `tag` returned: the tag and
    /// the number of such earlier calls, in eight hexadecimal digits or more.
    pub fn create_label(&mut self, tag: &str) -> (label: String)
        requires
            old(self)@.can_label(tag@),
        ensures
            label@ == label_text(tag@, old(self)@.label_count(tag@)),
            final(self)@ == old(self)@.with_label(tag@),
    {
        let index = match self.label_counts.get(tag) {
            Some(count) => *count,
            None => 0,
        };
        self.label_counts.insert(String::from_str(tag), index + 1);
        let digits = hex_string(index, 8);
        let mut label = String::from_str(tag);
        label.append(digits.as_str());
        label
    }

    /// Opens a scope. Nothing is emitted for it.
    pub fn enter(&mut self) -> (code: String)
        requires
            old(self)@.wf(),
        ensures
            code@ == Seq::<char>::empty(),
            final(self)@ == old(self)@.entered(),
            final(self)@.wf(),
    {
        proof {
            lemma_total_push(self@.frames, FrameView::sized(0));
        }
        self.variables.push(VariableFrame::default());
        String::new()
    }

    /// Closes the innermost scope and emits the release of its slots.
    pub fn exit(&mut self) -> (code: String)
        requires
            old(self)@.wf(),
            old(self)@.frames.len() > 0,
        ensures
            code@ == release_text(old(self)@.frames.last().size),
            final(self)@ == old(self)@.exited(),
            final(self)@.wf(),
    {
        proof {
            lemma_total_bounds(self@.frames, self@.frames.len() - 1);
            assert(self@.frames.take(self@.frames.len() - 1) =~= self@.frames.drop_last());
        }
        let frame = self.variables.pop().unwrap();
        let size = frame.size();
        self.stack_size = self.stack_size - size;
        release_line(size)
    }

    /// Makes `frame` the labels of the innermost loop.
    pub fn enter_labelled_region(&mut self, frame: LabelFrame)
        ensures
            final(self)@ == old(self)@.with_regions(old(self)@.regions.push(frame@)),
    {
        self.label_stack.push(frame);
        assert(self@.regions =~= old(self)@.regions.push(frame@));
    }

    /// Leaves the innermost loop and returns its labels, if there is one.
    pub fn exit_labelled_region(&mut self) -> (frame: Option<LabelFrame>)
        ensures
            match frame {
                Some(frame) => old(self)@.region() == Some(frame@) && final(self)@
                    == old(self)@.with_regions(old(self)@.regions.drop_last()),
                None => old(self)@.region() is None && final(self)@ == old(self)@,
            },
    {
        let frame = self.label_stack.pop();
        assert(frame is Some ==> self@.regions =~= old(self)@.regions.drop_last());
        assert(frame is None ==> self@.regions =~= old(self)@.regions);
        frame
    }

    /// The labels of the innermost loop, if there is one.
    pub fn get_labelled_region(&self) -> (frame: Option<LabelFrame>)
        ensures
            match frame {
                Some(frame) => self@.region() == Some(frame@),
                None => self@.region() is None,
            },
    {
        let depth = self.label_stack.len();
        if depth == 0 {
            None
        } else {
            Some(self.label_stack[depth - 1].clone())
        }
    }

    /// Whether the registry holds a function `name`.
    pub fn knows_function(&self, name: &str) -> (known: bool)
        ensures
            known == self@.functions.contains_key(name@),
    {
        self.type_registry.get_function(name).is_some()
    }

    /// Opens the scopes of the function `name`: a frame that holds the
    /// return address and the arguments, with the parameters declared, and
    /// an empty frame for the locals. Nothing is emitted for them.
    pub fn enter_function(&mut self, name: &str) -> (code: Result<String, CodegenError>)
        requires
            old(self)@.wf(),
        ensures
            final(self)@.wf(),
            match code {
                Ok(text) => old(self)@.functions.contains_key(name@)
                    && old(self)@.can_enter_function(name@) && text@ == Seq::<char>::empty()
                    && final(self)@ == old(self)@.function_entered(name@),
                Err(error) => final(self)@ == old(self)@ && if old(self)@.functions.contains_key(
                    name@,
                ) {
                    !old(self)@.can_enter_function(name@) && error@
                        == crate::codegen::CodegenErrorView::LimitExceeded
                } else {
                    error@ == crate::codegen::CodegenErrorView::FunctionNotDeclared(name@)
                },
            },
    {
        let function = match self.type_registry.get_function(name) {
            Some(function) => function,
            None => {
                return Err(CodegenError::FunctionNotDeclared(String::from_str(name)));
            },
        };
        let count = function.params.len();
        if count as u64 >= MAX_SLOTS - self.stack_size {
            return Err(CodegenError::LimitExceeded);
        }
        let ghost names = function.names();
        let mut frame = VariableFrame {
            stack_size: 1 + count as u64,
            variables: StringHashMap::new(),
            is_function: true,
        };
        assert(frame@.variables =~= parameters_bound(names, 0));
        let mut i: usize = 0;
        while i < count
            invariant
                i <= count,
                count == function.params.len(),
                names == function.names(),
                frame@.size == 1 + count,
                frame@.is_function,
                frame@.variables == parameters_bound(names, i as nat),
            decreases count - i,
        {
            let ghost before = frame@;
            frame.variables.insert(
                function.params[i].name.clone(),
                VariableMeta { stack_frame_offset: (i + 1) as u64, is_mutable: false },
            );
            assert(frame@.variables =~= before.variables.insert(
                names[i as int],
                VariableView { offset: (i + 1) as nat, is_mutable: false },
            ));
            i += 1;
        }
        proof {
            lemma_total_push(self@.frames, frame@);
            lemma_total_push(self@.frames.push(frame@), FrameView::sized(0));
        }
        self.variables.push(frame);
        self.variables.push(VariableFrame::default());
        self.stack_size = self.stack_size + (1 + count as u64);
        Ok(String::new())
    }

    /// Closes the two scopes of a function whose body ran to its end, and
    /// emits what returns from it.
    pub fn exit_function(&mut self) -> (code: Result<String, CodegenError>)
        requires
            old(self)@.wf(),
            old(self)@.frames.len() >= 2,
        ensures
            final(self)@.wf(),
            final(self)@ == old(self)@.exited().exited(),
            code matches Ok(text) && text@ == epilogue_text(
                old(self)@.frames.last().size,
                old(self)@.frames[old(self)@.frames.len() - 2].size,
            ),
    {
        let mut code = self.exit();
        code.append("    mov rbx, [rsp]\n");
        let params = self.exit();
        code.append(params.as_str());
        code.append("    push rbx\n");
        code.append("    ret\n");
        Ok(code)
    }

    /// What returns the value in `rax` to the caller from wherever the
    /// scopes stand inside a function: all that lies above the frame of the
    /// function is given up, then the arguments, and the value is left on
    /// top for the caller. The scopes stay as they are, for the code that
    /// follows.
    pub fn unwind(&self) -> (code: Result<String, CodegenError>)
        requires
            self@.wf(),
        ensures
            match code {
                Ok(text) => self@.in_function() && text@ == return_text(
                    self@.above_function(),
                    self@.arguments(),
                ),
                Err(error) => !self@.in_function() && error@
                    == crate::codegen::CodegenErrorView::OutsideFunction,
            },
    {
        proof {
            lemma_enclosing_function_bound(self@.frames);
        }
        match self.variables.function_frame() {
            Some((above, size)) => {
                if size == 0 {
                    return Err(CodegenError::OutsideFunction);
                }
                let mut code = release_line(above);
                code.append("    pop rbx\n");
                let arguments = release_line(size - 1);
                code.append(arguments.as_str());
                code.append("    push rax\n");
                code.append("    push rbx\n");
                code.append("    ret\n");
                Ok(code)
            },
            None => Err(CodegenError::OutsideFunction),
        }
    }
}

/// Each of the first `count` parameters is bound, at the slot after its
/// index, where no two of them have one name.
pub proof fn lemma_parameters_bound(names: Seq<Seq<char>>, count: nat, i: int)
    requires
        count <= names.len(),
        0 <= i < count,
        forall|j: int, k: int| 0 <= j < k < names.len() ==> names[j] != names[k],
    ensures
        parameters_bound(names, count).contains_key(names[i]),
        parameters_bound(names, count)[names[i]] == (VariableView {
            offset: (i + 1) as nat,
            is_mutable: false,
        }),
    decreases count,
{
    if i < count - 1 {
        lemma_parameters_bound(names, (count - 1) as nat, i);
    }
}

/// Right after a function is entered, its parameter at index `i` of `n`
/// reads from the slot `n - i` below the top of the stack: the arguments
/// were pushed from left to right, so the first lies deepest and the last
/// just below the return address.
pub proof fn lemma_parameter_slot(state: ContextView, name: Seq<char>, i: int)
    requires
        state.functions.contains_key(name),
        0 <= i < state.functions[name].len(),
        forall|j: int, k: int|
            0 <= j < k < state.functions[name].len() ==> state.functions[name][j]
                != state.functions[name][k],
    ensures
        slot_of(state.function_entered(name).frames, state.functions[name][i]) == Some(
            (state.functions[name].len() - i) as nat,
        ),
        mutability_of(state.function_entered(name).frames, state.functions[name][i]) == Some(
            false,
        ),
{
    reveal_with_fuel(slot_of, 3);
    reveal_with_fuel(mutability_of, 3);
    let names = state.functions[name];
    let entered = state.function_entered(name).frames;
    lemma_parameters_bound(names, names.len(), i);
    assert(entered.drop_last() =~= state.frames.push(parameters_frame(names)));
    assert(entered.drop_last().last() == parameters_frame(names));
    assert(entered.last() == FrameView::sized(0));
}

/// Labels are unique by tag: labels of one tag with different numbers are
/// different labels, so that the labels which `create_label` hands out for
/// one tag never repeat.
pub proof fn lemma_labels_differ(tag: Seq<char>, first: nat, second: nat)
    requires
        first != second,
    ensures
        label_text(tag, first) != label_text(tag, second),
{
    if label_text(tag, first) == label_text(tag, second) {
        assert(hex_padded(first, 8) =~= label_text(tag, first).skip(tag.len() as int));
        assert(hex_padded(second, 8) =~= label_text(tag, second).skip(tag.len() as int));
        crate::text::lemma_hex_padded_is_injective(first, second, 8);
    }
}

/// A slot never lies deeper than the stack is high.
pub proof fn lemma_slot_bound(frames: Seq<FrameView>, name: Seq<char>)
    ensures
        slot_of(frames, name) matches Some(slots) ==> slots <= total_size(frames),
    decreases frames.len(),
{
    if frames.len() > 0 {
        lemma_slot_bound(frames.drop_last(), name);
    }
}

} // verus!
