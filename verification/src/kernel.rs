//! Binding resources to the slots of a shader and dispatching the kernel that
//! results.
use crate::buffer::GpuBuffer;
use crate::command::{Access, Binding, Command, ImageView, Op, Resource, ResourceKind, Slot};
use crate::error::Error;
use crate::framework::Framework;
use vstd::prelude::*;

verus! {

/// Number of bindings in `set` among `bindings`.
pub open spec fn count_in_set(bindings: Seq<Binding>, set: u32) -> nat
    decreases bindings.len(),
{
    if bindings.len() == 0 {
        0
    } else {
        count_in_set(bindings.drop_last(), set) + if bindings.last().set == set {
            1nat
        } else {
            0nat
        }
    }
}

/// The bindings of `set` among `bindings`, in the order in which they stand
/// there.
pub open spec fn group_of(bindings: Seq<Binding>, set: u32) -> Seq<Binding>
    decreases bindings.len(),
{
    if bindings.len() == 0 {
        Seq::empty()
    } else if bindings.last().set == set {
        group_of(bindings.drop_last(), set).push(bindings.last())
    } else {
        group_of(bindings.drop_last(), set)
    }
}

/// Number of binding sets that `bindings` reach: one more than the largest
/// set index, and zero where there is no binding.
pub open spec fn set_count_of(bindings: Seq<Binding>) -> nat
    decreases bindings.len(),
{
    if bindings.len() == 0 {
        0
    } else {
        let rest = set_count_of(bindings.drop_last());
        if bindings.last().set + 1 > rest {
            (bindings.last().set + 1) as nat
        } else {
            rest
        }
    }
}

/// Every binding has as its index the number of bindings that were added to
/// its set before it: the indices of a set start at zero and leave no gap.
pub open spec fn well_numbered(bindings: Seq<Binding>) -> bool {
    forall|k: int|
        0 <= k < bindings.len() ==> (#[trigger] bindings[k]).index == count_in_set(
            bindings.take(k),
            bindings[k].set,
        )
}

/// The slots that `bindings` fill.
pub open spec fn slots_of(bindings: Seq<Binding>) -> Seq<Slot> {
    bindings.map_values(|b: Binding| b.spec_slot())
}

/// The declared bindings are exactly the slots that are expected: as many,
/// and each slot of the one among the slots of the other, with its kind and
/// its access.
pub open spec fn same_layout(declared: Seq<Binding>, expected: Seq<Slot>) -> bool {
    &&& declared.len() == expected.len()
    &&& forall|i: int| 0 <= i < declared.len() ==> expected.contains(#[trigger] slots_of(declared)[i])
    &&& forall|j: int| 0 <= j < expected.len() ==> slots_of(declared).contains(#[trigger] expected[j])
}

/// An entry point of a shader with the slots that it expects.
#[derive(Debug)]
pub struct EntryPoint {
    pub name: String,
    pub slots: Vec<Slot>,
}

/// An [`EntryPoint`] as a mathematical value.
pub struct EntryModel {
    pub name: Seq<char>,
    pub slots: Seq<Slot>,
}

impl View for EntryPoint {
    type V = EntryModel;

    open spec fn view(&self) -> EntryModel {
        EntryModel { name: self.name@, slots: self.slots@ }
    }
}

/// The slots of the first entry point called `name`, if there is one.
pub open spec fn expected_slots(entry_points: Seq<EntryModel>, name: Seq<char>) -> Option<Seq<Slot>>
    decreases entry_points.len(),
{
    if entry_points.len() == 0 {
        None
    } else if entry_points.first().name == name {
        Some(entry_points.first().slots)
    } else {
        expected_slots(entry_points.drop_first(), name)
    }
}

/// A compiled shader module: the handle under which the driver knows it, and
/// the binding layout of each of its entry points.
#[derive(Debug)]
pub struct Shader {
    handle: u64,
    entry_points: Vec<EntryPoint>,
}

/// A [`Shader`] as a mathematical value.
pub struct ShaderModel {
    pub handle: u64,
    pub entry_points: Seq<EntryModel>,
}

impl View for Shader {
    type V = ShaderModel;

    closed spec fn view(&self) -> ShaderModel {
        ShaderModel {
            handle: self.handle,
            entry_points: self.entry_points@.map_values(|e: EntryPoint| e@),
        }
    }
}

/// The entry points as mathematical values.
pub open spec fn entries_of(entry_points: Seq<EntryPoint>) -> Seq<EntryModel> {
    entry_points.map_values(|e: EntryPoint| e@)
}

impl Shader {
    /// The shader that the driver knows as `handle`, with the layouts that
    /// were reflected from it.
    pub fn new(handle: u64, entry_points: Vec<EntryPoint>) -> (shader: Shader)
        ensures
            shader@ == (ShaderModel { handle, entry_points: entries_of(entry_points@) }),
    {
        Shader { handle, entry_points }
    }

    /// The handle under which the driver knows the module.
    pub fn handle(&self) -> (r: u64)
        ensures
            r == self@.handle,
    {
        self.handle
    }

    /// Position of the first entry point called `name`.
    fn find(&self, name: &String) -> (r: Option<usize>)
        ensures
            match r {
                Some(i) => i < self.entry_points@.len() && expected_slots(
                    self@.entry_points,
                    name@,
                ) == Some(self.entry_points@[i as int].slots@),
                None => expected_slots(self@.entry_points, name@) is None,
            },
    {
        let ghost all = self@.entry_points;
        let mut i: usize = 0;
        assert(all.skip(0) =~= all);
        while i < self.entry_points.len()
            invariant
                i <= self.entry_points@.len(),
                all == self@.entry_points,
                all.len() == self.entry_points@.len(),
                expected_slots(all, name@) == expected_slots(all.skip(i as int), name@),
            decreases self.entry_points@.len() - i,
        {
            proof {
                assert(all.skip(i as int).first() == self.entry_points@[i as int]@);
                assert(all.skip(i as int).drop_first() =~= all.skip(i + 1));
            }
            if self.entry_points[i].name == *name {
                return Some(i);
            }
            i = i + 1;
        }
        proof {
            assert(all.skip(i as int).len() == 0);
        }
        None
    }
}

/// Whether `slot` stands in `slots`.
fn has_slot(slots: &Vec<Slot>, slot: Slot) -> (r: bool)
    ensures
        r == slots@.contains(slot),
{
    let mut j: usize = 0;
    while j < slots.len()
        invariant
            j <= slots@.len(),
            forall|k: int| 0 <= k < j ==> slots@[k] != slot,
        decreases slots@.len() - j,
    {
        if slots[j] == slot {
            return true;
        }
        j = j + 1;
    }
    false
}

/// Whether a binding among `bindings` fills `slot`.
fn fills_slot(bindings: &Vec<Binding>, slot: Slot) -> (r: bool)
    ensures
        r == slots_of(bindings@).contains(slot),
{
    let mut i: usize = 0;
    while i < bindings.len()
        invariant
            i <= bindings@.len(),
            forall|k: int| 0 <= k < i ==> slots_of(bindings@)[k] != slot,
        decreases bindings@.len() - i,
    {
        let found = bindings[i].slot();
        assert(found == slots_of(bindings@)[i as int]);
        if found == slot {
            return true;
        }
        i = i + 1;
    }
    false
}

/// Whether the declared bindings are exactly the expected slots.
pub fn layout_matches(declared: &Vec<Binding>, expected: &Vec<Slot>) -> (r: bool)
    ensures
        r == same_layout(declared@, expected@),
{
    if declared.len() != expected.len() {
        return false;
    }
    let mut i: usize = 0;
    while i < declared.len()
        invariant
            i <= declared@.len(),
            declared@.len() == expected@.len(),
            forall|k: int| 0 <= k < i ==> expected@.contains(#[trigger] slots_of(declared@)[k]),
        decreases declared@.len() - i,
    {
        let slot = declared[i].slot();
        assert(slot == slots_of(declared@)[i as int]);
        if !has_slot(expected, slot) {
            return false;
        }
        i = i + 1;
    }
    let mut j: usize = 0;
    while j < expected.len()
        invariant
            j <= expected@.len(),
            declared@.len() == expected@.len(),
            forall|k: int|
                0 <= k < declared@.len() ==> expected@.contains(#[trigger] slots_of(declared@)[k]),
            forall|k: int| 0 <= k < j ==> slots_of(declared@).contains(#[trigger] expected@[k]),
        decreases expected@.len() - j,
    {
        if !fills_slot(declared, expected[j]) {
            return false;
        }
        j = j + 1;
    }
    true
}

/// Number of bindings in `set`.
pub fn count_bindings(bindings: &Vec<Binding>, set: u32) -> (n: usize)
    ensures
        n == count_in_set(bindings@, set),
{
    let mut n: usize = 0;
    let mut i: usize = 0;
    while i < bindings.len()
        invariant
            i <= bindings@.len(),
            n <= i,
            n == count_in_set(bindings@.take(i as int), set),
        decreases bindings@.len() - i,
    {
        assert(bindings@.take(i + 1).drop_last() =~= bindings@.take(i as int));
        if bindings[i].set == set {
            n = n + 1;
        }
        i = i + 1;
    }
    assert(bindings@.take(i as int) =~= bindings@);
    n
}

/// The bindings of `set`, in order: the bind group that a driver binds at
/// index `set`.
pub fn collect_group(bindings: &Vec<Binding>, set: u32) -> (group: Vec<Binding>)
    ensures
        group@ == group_of(bindings@, set),
{
    let mut group: Vec<Binding> = Vec::new();
    let mut i: usize = 0;
    while i < bindings.len()
        invariant
            i <= bindings@.len(),
            group@ == group_of(bindings@.take(i as int), set),
        decreases bindings@.len() - i,
    {
        assert(bindings@.take(i + 1).drop_last() =~= bindings@.take(i as int));
        if bindings[i].set == set {
            group.push(bindings[i]);
        }
        i = i + 1;
    }
    assert(bindings@.take(i as int) =~= bindings@);
    group
}

/// Number of binding sets that the bindings reach.
pub fn count_sets(bindings: &Vec<Binding>) -> (n: u64)
    ensures
        n == set_count_of(bindings@),
{
    let mut n: u64 = 0;
    let mut i: usize = 0;
    while i < bindings.len()
        invariant
            i <= bindings@.len(),
            n <= u32::MAX + 1,
            n == set_count_of(bindings@.take(i as int)),
        decreases bindings@.len() - i,
    {
        assert(bindings@.take(i + 1).drop_last() =~= bindings@.take(i as int));
        let reach: u64 = bindings[i].set as u64 + 1;
        if reach > n {
            n = reach;
        }
        i = i + 1;
    }
    assert(bindings@.take(i as int) =~= bindings@);
    n
}

/// A [`KernelBuilder`] as a mathematical value.
pub struct BuilderModel {
    pub shader: ShaderModel,
    pub entry_point: Seq<char>,
    /// The bindings added so far, oldest first.
    pub bindings: Seq<Binding>,
}

impl BuilderModel {
    /// The builder after `resource` was added to `set`: it gets the next free
    /// index of that set.
    pub open spec fn bound(self, resource: Resource, access: Access, set: u32) -> Self {
        BuilderModel {
            bindings: self.bindings.push(
                Binding {
                    set,
                    index: count_in_set(self.bindings, set) as usize,
                    access,
                    resource,
                },
            ),
            ..self
        }
    }

    /// Whether the shader has the entry point and expects exactly the
    /// bindings that were added.
    pub open spec fn accepted(self) -> bool {
        match expected_slots(self.shader.entry_points, self.entry_point) {
            Some(expected) => same_layout(self.bindings, expected),
            None => false,
        }
    }

    /// The command that creates the kernel under handle `id`.
    pub open spec fn create_op(self, id: usize) -> Op {
        Op::CreateKernel {
            id,
            shader: self.shader.handle,
            entry_point: self.entry_point,
            bindings: self.bindings,
        }
    }
}

/// Collects the resources of a kernel, in the order in which they are added.
/// Building consumes the builder: no binding can be added afterwards.
#[derive(Debug)]
pub struct KernelBuilder<'sha> {
    shader: &'sha Shader,
    entry_point: String,
    bindings: Vec<Binding>,
}

impl<'sha> View for KernelBuilder<'sha> {
    type V = BuilderModel;

    closed spec fn view(&self) -> BuilderModel {
        BuilderModel {
            shader: self.shader@,
            entry_point: self.entry_point@,
            bindings: self.bindings@,
        }
    }
}

/// A [`Kernel`] as a mathematical value.
pub struct KernelModel {
    /// Handle of the kernel in its framework.
    pub id: usize,
    /// The bound resources, in the order in which they were added.
    pub bindings: Seq<Binding>,
}

/// A compiled pipeline with its bound resources, ready to be dispatched any
/// number of times.
#[derive(Debug)]
pub struct Kernel {
    id: usize,
    bindings: Vec<Binding>,
}

impl View for Kernel {
    type V = KernelModel;

    closed spec fn view(&self) -> KernelModel {
        KernelModel { id: self.id, bindings: self.bindings@ }
    }
}

/// A binding numbered after `bindings` keeps them well numbered.
proof fn lemma_push_keeps_numbering(bindings: Seq<Binding>, binding: Binding)
    requires
        well_numbered(bindings),
        binding.index == count_in_set(bindings, binding.set),
    ensures
        well_numbered(bindings.push(binding)),
{
    let next = bindings.push(binding);
    assert forall|k: int| 0 <= k < next.len() implies (#[trigger] next[k]).index == count_in_set(
        next.take(k),
        next[k].set,
    ) by {
        if k < bindings.len() {
            assert(next.take(k) =~= bindings.take(k));
            assert(next[k] == bindings[k]);
        } else {
            assert(next.take(k) =~= bindings);
        }
    }
}

/// A group has as many bindings as its set was given.
pub proof fn lemma_group_len(bindings: Seq<Binding>, set: u32)
    ensures
        group_of(bindings, set).len() == count_in_set(bindings, set),
    decreases bindings.len(),
{
    if bindings.len() > 0 {
        lemma_group_len(bindings.drop_last(), set);
    }
}

/// In well numbered bindings the group of a set holds the bindings of that
/// set with the indices 0, 1, 2 and so on, in the order in which they were
/// added.
pub proof fn lemma_group_indices(bindings: Seq<Binding>, set: u32)
    requires
        well_numbered(bindings),
    ensures
        forall|i: int|
            0 <= i < group_of(bindings, set).len() ==> (#[trigger] group_of(bindings, set)[i]).index
                == i && group_of(bindings, set)[i].set == set,
    decreases bindings.len(),
{
    if bindings.len() > 0 {
        let rest = bindings.drop_last();
        assert forall|k: int| 0 <= k < rest.len() implies (#[trigger] rest[k]).index
            == count_in_set(rest.take(k), rest[k].set) by {
            assert(rest.take(k) =~= bindings.take(k));
            assert(rest[k] == bindings[k]);
        }
        lemma_group_indices(rest, set);
        lemma_group_len(rest, set);
        assert(bindings.take(bindings.len() - 1) =~= rest);
        assert(bindings.last() == bindings[bindings.len() - 1]);
    }
}

/// Adding a resource to a set appends it to the group of that set, with the
/// next index, and leaves every other group as it was.
pub proof fn lemma_bound_extends_group(
    builder: BuilderModel,
    resource: Resource,
    access: Access,
    set: u32,
    other: u32,
)
    ensures
        group_of(builder.bound(resource, access, set).bindings, set) == group_of(
            builder.bindings,
            set,
        ).push(
            Binding {
                set,
                index: group_of(builder.bindings, set).len() as usize,
                access,
                resource,
            },
        ),
        other != set ==> group_of(builder.bound(resource, access, set).bindings, other) == group_of(
            builder.bindings,
            other,
        ),
{
    let next = builder.bound(resource, access, set).bindings;
    assert(next.drop_last() =~= builder.bindings);
    lemma_group_len(builder.bindings, set);
}

/// Three resources added to one set of a builder that has none in it yet make
/// up the group of that set, in the order in which they were added and with
/// the indices 0, 1 and 2, whatever was added to other sets before.
pub proof fn lemma_three_in_order(
    builder: BuilderModel,
    set: u32,
    first: (Resource, Access),
    second: (Resource, Access),
    third: (Resource, Access),
)
    requires
        count_in_set(builder.bindings, set) == 0,
    ensures
        group_of(
            builder.bound(first.0, first.1, set).bound(second.0, second.1, set).bound(
                third.0,
                third.1,
                set,
            ).bindings,
            set,
        ) == seq![
            Binding { set, index: 0, access: first.1, resource: first.0 },
            Binding { set, index: 1, access: second.1, resource: second.0 },
            Binding { set, index: 2, access: third.1, resource: third.0 },
        ],
{
    let one = builder.bound(first.0, first.1, set);
    let two = one.bound(second.0, second.1, set);
    let three = two.bound(third.0, third.1, set);
    lemma_group_len(builder.bindings, set);
    lemma_bound_extends_group(builder, first.0, first.1, set, set);
    lemma_bound_extends_group(one, second.0, second.1, set, set);
    lemma_bound_extends_group(two, third.0, third.1, set, set);
    assert(group_of(builder.bindings, set) =~= Seq::empty());
    assert(group_of(three.bindings, set) =~= seq![
        Binding { set, index: 0, access: first.1, resource: first.0 },
        Binding { set, index: 1, access: second.1, resource: second.0 },
        Binding { set, index: 2, access: third.1, resource: third.0 },
    ]);
}

impl<'sha> KernelBuilder<'sha> {
    #[verifier::type_invariant]
    spec fn inv(self) -> bool {
        well_numbered(self.bindings@)
    }

    /// A builder without bindings for `entry_point` of `shader`.
    pub(crate) fn new(shader: &'sha Shader, entry_point: &str) -> (builder: KernelBuilder<'sha>)
        ensures
            builder@ == (BuilderModel {
                shader: shader@,
                entry_point: entry_point@,
                bindings: Seq::empty(),
            }),
    {
        KernelBuilder { shader, entry_point: entry_point.to_owned(), bindings: Vec::new() }
    }

    /// Number of bindings added so far.
    pub fn binding_count(&self) -> (n: usize)
        ensures
            n == self@.bindings.len(),
            well_numbered(self@.bindings),
    {
        proof {
            use_type_invariant(self);
        }
        self.bindings.len()
    }

    /// Adds `resource` to `set` at the next free index of that set.
    fn bind(self, resource: Resource, access: Access, set: u32) -> (builder: KernelBuilder<'sha>)
        ensures
            builder@ == self@.bound(resource, access, set),
    {
        proof {
            use_type_invariant(&self);
        }
        let index: usize = count_bindings(&self.bindings, set);
        let binding = Binding { set, index, access, resource };
        let mut bindings = self.bindings;
        proof {
            lemma_push_keeps_numbering(bindings@, binding);
        }
        bindings.push(binding);
        KernelBuilder { shader: self.shader, entry_point: self.entry_point, bindings }
    }

    /// Binds a buffer at the next free index of set `set_index`. Whether the
    /// access fits the buffer is the device's to check when the kernel is
    /// created.
    pub fn add_buffer<T>(self, buffer: &GpuBuffer<T>, access: Access, set_index: u32) -> (builder:
        KernelBuilder<'sha>)
        ensures
            builder@ == self@.bound(Resource::Buffer(buffer@.id), access, set_index),
    {
        self.bind(Resource::Buffer(buffer.id()), access, set_index)
    }

    /// Binds a view of an image at the next free index of set `set_index`.
    pub fn add_image(self, view: ImageView, access: Access, set_index: u32) -> (builder:
        KernelBuilder<'sha>)
        ensures
            builder@ == self@.bound(Resource::Image(view), access, set_index),
    {
        self.bind(Resource::Image(view), access, set_index)
    }

    /// Makes the kernel, if the shader has the entry point and expects
    /// exactly the bindings that were added. Otherwise the layouts do not
    /// match: no kernel comes to be and nothing is recorded.
    pub fn build(self, fw: &mut Framework) -> (r: Result<Kernel, Error>)
        ensures
            self@.accepted() ==> r is Ok && r->Ok_0@ == (KernelModel {
                id: old(fw)@.next_id() as usize,
                bindings: self@.bindings,
            }) && well_numbered(self@.bindings) && final(fw)@ == old(fw)@.allocate(
                ResourceKind::Kernel,
            ).record(self@.create_op(old(fw)@.next_id() as usize)),
            !self@.accepted() ==> r == Err::<Kernel, Error>(Error::LayoutMismatch) && final(fw)@
                == old(fw)@,
    {
        proof {
            use_type_invariant(&self);
        }
        match self.shader.find(&self.entry_point) {
            None => Err(Error::LayoutMismatch),
            Some(i) => {
                if !layout_matches(&self.bindings, &self.shader.entry_points[i].slots) {
                    Err(Error::LayoutMismatch)
                } else {
                    let id: usize = fw.allocate(ResourceKind::Kernel);
                    let mut declared: Vec<Binding> = Vec::new();
                    let mut k: usize = 0;
                    while k < self.bindings.len()
                        invariant
                            k <= self.bindings@.len(),
                            declared@ == self.bindings@.take(k as int),
                        decreases self.bindings@.len() - k,
                    {
                        declared.push(self.bindings[k]);
                        k = k + 1;
                    }
                    assert(self.bindings@.take(k as int) =~= self.bindings@);
                    fw.record(
                        Command::CreateKernel {
                            id,
                            shader: self.shader.handle,
                            entry_point: self.entry_point,
                            bindings: declared,
                        },
                    );
                    Ok(Kernel { id, bindings: self.bindings })
                }
            },
        }
    }
}

impl Kernel {
    #[verifier::type_invariant]
    spec fn inv(self) -> bool {
        well_numbered(self.bindings@)
    }

    /// Handle of the kernel in its framework.
    pub fn id(&self) -> (r: usize)
        ensures
            r == self@.id,
    {
        self.id
    }

    /// Number of bound resources.
    pub fn binding_count(&self) -> (n: usize)
        ensures
            n == self@.bindings.len(),
            well_numbered(self@.bindings),
    {
        proof {
            use_type_invariant(self);
        }
        self.bindings.len()
    }

    /// The bind group of `set`: its bindings in order, the one at position
    /// `i` with index `i`.
    pub fn group(&self, set: u32) -> (group: Vec<Binding>)
        ensures
            group@ == group_of(self@.bindings, set),
            forall|i: int| 0 <= i < group@.len() ==> (#[trigger] group@[i]).index == i,
    {
        proof {
            use_type_invariant(self);
            lemma_group_indices(self.bindings@, set);
        }
        collect_group(&self.bindings, set)
    }

    /// Number of binding sets that the kernel reaches.
    pub fn set_count(&self) -> (n: u64)
        ensures
            n == set_count_of(self@.bindings),
    {
        count_sets(&self.bindings)
    }

    /// Gives the kernel up: its pipeline and bind groups are dropped. The
    /// handle is consumed, so the kernel cannot be dispatched afterwards.
    pub fn release(self, fw: &mut Framework)
        ensures
            final(fw)@ == old(fw)@.record(Op::Release { id: self@.id }),
    {
        fw.record(Command::Release { id: self.id });
    }

    /// Runs the kernel once with `x` by `y` by `z` workgroups. The call does
    /// not wait: completion shows in a later read or poll.
    pub fn dispatch(&self, fw: &mut Framework, x: u32, y: u32, z: u32)
        ensures
            final(fw)@ == old(fw)@.record(Op::Dispatch { kernel: self@.id, x, y, z }),
    {
        fw.record(Command::Dispatch { kernel: self.id, x, y, z });
    }
}

} // verus!
