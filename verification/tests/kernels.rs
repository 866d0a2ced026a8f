use gpgpu::{
    collect_group, count_bindings, count_sets, layout_matches, Access, Binding, Command,
    EntryPoint, Error, Framework, PixelFormat, Resource, Shader, Slot, SlotKind,
};

fn slot(set: u32, index: usize, kind: SlotKind, access: Access) -> Slot {
    Slot { set, index, kind, access }
}

fn shader(slots: Vec<Slot>) -> Shader {
    Shader::new(42, vec![EntryPoint { name: "main".to_string(), slots }])
}

#[test]
fn buffers_get_their_indices_in_order_of_addition() {
    let mut fw = Framework::new();
    let b0 = fw.create_buffer::<u32>(4);
    let b1 = fw.create_buffer::<u32>(4);
    let b2 = fw.create_buffer::<u32>(4);
    let expected = shader(vec![
        slot(0, 0, SlotKind::Buffer, Access::ReadOnly),
        slot(0, 1, SlotKind::Buffer, Access::ReadOnly),
        slot(0, 2, SlotKind::Buffer, Access::ReadWrite),
    ]);
    let kernel = fw
        .create_kernel_builder(&expected, "main")
        .add_buffer(&b0, Access::ReadOnly, 0)
        .add_buffer(&b1, Access::ReadOnly, 0)
        .add_buffer(&b2, Access::ReadWrite, 0)
        .build(&mut fw)
        .unwrap();
    assert_eq!(
        kernel.group(0),
        vec![
            Binding { set: 0, index: 0, access: Access::ReadOnly, resource: Resource::Buffer(b0.id()) },
            Binding { set: 0, index: 1, access: Access::ReadOnly, resource: Resource::Buffer(b1.id()) },
            Binding { set: 0, index: 2, access: Access::ReadWrite, resource: Resource::Buffer(b2.id()) },
        ]
    );
    assert_eq!(kernel.group(1), vec![]);
    assert_eq!(kernel.set_count(), 1);
    assert_eq!(kernel.binding_count(), 3);
}

#[test]
fn every_set_counts_its_own_indices() {
    let mut fw = Framework::new();
    let a = fw.create_buffer::<u32>(1);
    let b = fw.create_buffer::<u32>(1);
    let image = fw.create_image(2, 2, PixelFormat::Rgba8Unorm);
    let layout = shader(vec![
        slot(0, 0, SlotKind::Buffer, Access::ReadWrite),
        slot(1, 0, SlotKind::Image, Access::ReadOnly),
        slot(0, 1, SlotKind::Buffer, Access::ReadOnly),
        slot(1, 1, SlotKind::Buffer, Access::ReadOnly),
    ]);
    let builder = fw
        .create_kernel_builder(&layout, "main")
        .add_buffer(&a, Access::ReadWrite, 0)
        .add_image(image.full_view(), Access::ReadOnly, 1)
        .add_buffer(&b, Access::ReadOnly, 0)
        .add_buffer(&a, Access::ReadOnly, 1);
    assert_eq!(builder.binding_count(), 4);
    let kernel = builder.build(&mut fw).unwrap();
    let indices = |set: u32| kernel.group(set).iter().map(|b| b.index).collect::<Vec<_>>();
    assert_eq!(indices(0), vec![0, 1]);
    assert_eq!(indices(1), vec![0, 1]);
    assert_eq!(kernel.group(1)[0].resource, Resource::Image(image.full_view()));
    assert_eq!(kernel.set_count(), 2);
}

#[test]
fn building_records_the_kernel_with_its_bindings() {
    let mut fw = Framework::new();
    let a = fw.create_buffer::<u32>(1);
    let layout = shader(vec![slot(0, 0, SlotKind::Buffer, Access::ReadWrite)]);
    fw.take_commands();
    let kernel = fw
        .create_kernel_builder(&layout, "main")
        .add_buffer(&a, Access::ReadWrite, 0)
        .build(&mut fw)
        .unwrap();
    assert_eq!(kernel.id(), 1);
    assert_eq!(
        fw.take_commands(),
        vec![Command::CreateKernel {
            id: 1,
            shader: 42,
            entry_point: "main".to_string(),
            bindings: vec![Binding {
                set: 0,
                index: 0,
                access: Access::ReadWrite,
                resource: Resource::Buffer(a.id()),
            }],
        }]
    );
}

#[test]
fn a_missing_binding_is_a_layout_mismatch() {
    let mut fw = Framework::new();
    let a = fw.create_buffer::<u32>(1);
    let layout = shader(vec![
        slot(0, 0, SlotKind::Buffer, Access::ReadWrite),
        slot(0, 1, SlotKind::Buffer, Access::ReadWrite),
    ]);
    fw.take_commands();
    let r = fw.create_kernel_builder(&layout, "main").add_buffer(&a, Access::ReadWrite, 0).build(&mut fw);
    assert_eq!(r.err(), Some(Error::LayoutMismatch));
    assert_eq!(fw.command_count(), 0);
    assert_eq!(fw.resource_count(), 1);
}

#[test]
fn a_binding_too_many_is_a_layout_mismatch() {
    let mut fw = Framework::new();
    let a = fw.create_buffer::<u32>(1);
    let layout = shader(vec![slot(0, 0, SlotKind::Buffer, Access::ReadWrite)]);
    let r = fw
        .create_kernel_builder(&layout, "main")
        .add_buffer(&a, Access::ReadWrite, 0)
        .add_buffer(&a, Access::ReadWrite, 0)
        .build(&mut fw);
    assert_eq!(r.err(), Some(Error::LayoutMismatch));
}

#[test]
fn a_binding_of_another_kind_or_access_is_a_layout_mismatch() {
    let mut fw = Framework::new();
    let a = fw.create_buffer::<u32>(1);
    let image = fw.create_image(2, 2, PixelFormat::Rgba8Unorm);
    let layout = shader(vec![slot(0, 0, SlotKind::Buffer, Access::ReadOnly)]);
    let wrong_access =
        fw.create_kernel_builder(&layout, "main").add_buffer(&a, Access::ReadWrite, 0).build(&mut fw);
    assert_eq!(wrong_access.err(), Some(Error::LayoutMismatch));
    let wrong_kind = fw
        .create_kernel_builder(&layout, "main")
        .add_image(image.full_view(), Access::ReadOnly, 0)
        .build(&mut fw);
    assert_eq!(wrong_kind.err(), Some(Error::LayoutMismatch));
    let wrong_set =
        fw.create_kernel_builder(&layout, "main").add_buffer(&a, Access::ReadOnly, 1).build(&mut fw);
    assert_eq!(wrong_set.err(), Some(Error::LayoutMismatch));
    let right =
        fw.create_kernel_builder(&layout, "main").add_buffer(&a, Access::ReadOnly, 0).build(&mut fw);
    assert!(right.is_ok());
}

#[test]
fn an_unknown_entry_point_is_a_layout_mismatch() {
    let mut fw = Framework::new();
    let layout = shader(vec![]);
    assert_eq!(
        fw.create_kernel_builder(&layout, "other").build(&mut fw).err(),
        Some(Error::LayoutMismatch)
    );
    assert!(fw.create_kernel_builder(&layout, "main").build(&mut fw).is_ok());
}

#[test]
fn the_first_entry_point_of_a_name_counts() {
    let mut fw = Framework::new();
    let a = fw.create_buffer::<u32>(1);
    let two = Shader::new(
        1,
        vec![
            EntryPoint { name: "init".to_string(), slots: vec![] },
            EntryPoint {
                name: "step".to_string(),
                slots: vec![slot(0, 0, SlotKind::Buffer, Access::ReadWrite)],
            },
            EntryPoint { name: "step".to_string(), slots: vec![] },
        ],
    );
    assert_eq!(two.handle(), 1);
    assert!(fw.create_kernel_builder(&two, "init").build(&mut fw).is_ok());
    assert!(fw
        .create_kernel_builder(&two, "step")
        .add_buffer(&a, Access::ReadWrite, 0)
        .build(&mut fw)
        .is_ok());
    assert!(fw.create_kernel_builder(&two, "step").build(&mut fw).is_err());
}

#[test]
fn dispatch_records_the_workgroup_counts() {
    let mut fw = Framework::new();
    let layout = shader(vec![]);
    let kernel = fw.create_kernel_builder(&layout, "main").build(&mut fw).unwrap();
    fw.take_commands();
    kernel.dispatch(&mut fw, 8, 4, 2);
    kernel.dispatch(&mut fw, 1, 1, 1);
    assert_eq!(
        fw.take_commands(),
        vec![
            Command::Dispatch { kernel: kernel.id(), x: 8, y: 4, z: 2 },
            Command::Dispatch { kernel: kernel.id(), x: 1, y: 1, z: 1 },
        ]
    );
    assert!(fw.has_pending_work());
}

#[test]
fn groups_and_counts_of_a_list_of_bindings() {
    let binding = |set: u32, index: usize, id: usize| Binding {
        set,
        index,
        access: Access::ReadOnly,
        resource: Resource::Buffer(id),
    };
    let bindings = vec![binding(2, 0, 10), binding(0, 0, 11), binding(2, 1, 12)];
    assert_eq!(count_bindings(&bindings, 2), 2);
    assert_eq!(count_bindings(&bindings, 0), 1);
    assert_eq!(count_bindings(&bindings, 1), 0);
    assert_eq!(collect_group(&bindings, 2), vec![binding(2, 0, 10), binding(2, 1, 12)]);
    assert_eq!(collect_group(&bindings, 1), vec![]);
    assert_eq!(count_sets(&bindings), 3);
    assert_eq!(count_sets(&vec![]), 0);
    assert_eq!(count_sets(&vec![binding(u32::MAX, 0, 1)]), 1u64 << 32);
}

#[test]
fn layouts_match_whatever_the_order_of_the_slots() {
    let declared = vec![
        Binding { set: 0, index: 0, access: Access::ReadOnly, resource: Resource::Buffer(1) },
        Binding { set: 1, index: 0, access: Access::ReadWrite, resource: Resource::Buffer(2) },
    ];
    let a = slot(0, 0, SlotKind::Buffer, Access::ReadOnly);
    let b = slot(1, 0, SlotKind::Buffer, Access::ReadWrite);
    assert!(layout_matches(&declared, &vec![a, b]));
    assert!(layout_matches(&declared, &vec![b, a]));
    assert!(!layout_matches(&declared, &vec![a]));
    assert!(!layout_matches(&declared, &vec![a, a]));
    assert!(!layout_matches(&declared, &vec![a, b, b]));
    assert!(!layout_matches(&declared, &vec![a, slot(1, 0, SlotKind::Image, Access::ReadWrite)]));
    assert!(layout_matches(&vec![], &vec![]));
}

#[test]
fn releasing_a_kernel_and_an_image_records_their_release() {
    let mut fw = Framework::new();
    let image = fw.create_image(2, 2, PixelFormat::Rgba8Unorm);
    let layout = shader(vec![]);
    let kernel = fw.create_kernel_builder(&layout, "main").build(&mut fw).unwrap();
    fw.take_commands();
    kernel.release(&mut fw);
    image.release(&mut fw);
    assert_eq!(fw.take_commands(), vec![Command::Release { id: 1 }, Command::Release { id: 0 }]);
}
