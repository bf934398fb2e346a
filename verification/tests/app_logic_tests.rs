use render::components::{
    EmptyComponent, EventHandler, InternalLayoutable, LayoutStep, Rectangle, RowComponent, Text,
};
use render::components::general_layout_step;
use render::events::{
    get_mouse_position, handle_window_input, update_mouse_position, ClickDevice, Events,
    MouseState, SecondaryClickType, WindowAction, WindowInput,
};
use render::layout::{LayoutType, Layouted};
use render::options::{
    control_flow_for, power_preference_for, ControlFlow, PowerPreference, RenderMode,
    WindowOptions,
};
use render::render::{
    align_up, clear_plan, frame_plan, quad_fits, quad_indices, uniform_slot_offset, FramePlan,
    RectangleSlots, SurfaceStatus, TextFrameCursor, MAX_TEXT_INDICES, MAX_TEXT_VERTICES,
};

#[test]
fn the_mouse_position_reads_back_what_was_written() {
    let mut mouse = MouseState::new();
    assert_eq!(get_mouse_position(&mouse), (0, 0));
    update_mouse_position(&mut mouse, 12, 34);
    assert_eq!(get_mouse_position(&mouse), (12, 34));
    update_mouse_position(&mut mouse, 1, 2);
    assert_eq!(get_mouse_position(&mouse), (1, 2));
}

#[test]
fn window_input_becomes_events() {
    let mut mouse = MouseState::new();
    assert_eq!(handle_window_input(&mouse, WindowInput::CloseRequested), WindowAction::Exit);
    assert_eq!(
        handle_window_input(&mouse, WindowInput::Resized { width: 640, height: 480 }),
        WindowAction::Dispatch(Events::Resize { width: 640, height: 480 })
    );
    assert_eq!(
        handle_window_input(&mouse, WindowInput::CursorMoved { x: 5, y: 6 }),
        WindowAction::HoverThenRecord { x: 5, y: 6 }
    );
    // the position is recorded after the hover is handled
    assert_eq!(get_mouse_position(&mouse), (0, 0));
    update_mouse_position(&mut mouse, 5, 6);
    assert_eq!(
        handle_window_input(&mouse, WindowInput::MouseInput { pressed: true, left_button: true }),
        WindowAction::Dispatch(Events::PrimaryClick { x: 5, y: 6, click_device: ClickDevice::Mouse })
    );
    assert_eq!(
        handle_window_input(&mouse, WindowInput::MouseInput { pressed: false, left_button: true }),
        WindowAction::Nothing
    );
    assert_eq!(
        handle_window_input(&mouse, WindowInput::MouseInput { pressed: true, left_button: false }),
        WindowAction::Nothing
    );
    assert_eq!(handle_window_input(&mouse, WindowInput::RedrawRequested), WindowAction::RequestRedraw);
    assert_eq!(handle_window_input(&mouse, WindowInput::Other), WindowAction::Nothing);
    assert_eq!(get_mouse_position(&mouse), (5, 6));
    let _ = Events::SecondaryClick { x: 1, y: 2, secondary_click_type: SecondaryClickType::StylusButton(2) };
}

#[test]
fn default_window_options() {
    let o = WindowOptions::default();
    assert_eq!(o.title, "Render Window");
    assert_eq!((o.default_width, o.default_height), (800, 600));
    assert_eq!(o.render_mode, RenderMode::LowPower);
    assert_eq!(o.clear_color, (200, 255, 200));
    assert_eq!(RenderMode::default(), RenderMode::LowPower);
    let c = o.clone();
    assert_eq!(c.title, o.title);
}

#[test]
fn render_mode_decides_the_event_loop_and_adapter() {
    assert_eq!(control_flow_for(RenderMode::HighPerformance), ControlFlow::Poll);
    assert_eq!(control_flow_for(RenderMode::LowPower), ControlFlow::Wait);
    assert_eq!(power_preference_for(RenderMode::HighPerformance), PowerPreference::HighPerformance);
    assert_eq!(power_preference_for(RenderMode::LowPower), PowerPreference::LowPower);
}

#[test]
fn surface_status_decides_the_frame() {
    assert_eq!(frame_plan(SurfaceStatus::Success), FramePlan::Draw { reconfigure_after: false });
    assert_eq!(frame_plan(SurfaceStatus::Suboptimal), FramePlan::Draw { reconfigure_after: true });
    assert_eq!(frame_plan(SurfaceStatus::Outdated), FramePlan::ReconfigureAndSkip);
    assert_eq!(frame_plan(SurfaceStatus::Timeout), FramePlan::Skip);
    assert_eq!(frame_plan(SurfaceStatus::Occluded), FramePlan::Skip);
    assert_eq!(frame_plan(SurfaceStatus::Other), FramePlan::Skip);
    assert_eq!(clear_plan(SurfaceStatus::Success), FramePlan::Draw { reconfigure_after: false });
    assert_eq!(clear_plan(SurfaceStatus::Suboptimal), FramePlan::Skip);
}

#[test]
fn uniform_entries_are_aligned() {
    assert_eq!(align_up(80, 256), 256);
    assert_eq!(align_up(80, 16), 80);
    assert_eq!(align_up(81, 16), 96);
    assert_eq!(align_up(0, 64), 0);
    assert_eq!(uniform_slot_offset(0, 256), Some(0));
    assert_eq!(uniform_slot_offset(3, 256), Some(768));
    assert_eq!(uniform_slot_offset(127, 256), Some(127 * 256));
    assert_eq!(uniform_slot_offset(128, 256), None);
}

#[test]
fn glyph_quads_are_two_triangles() {
    assert_eq!(quad_indices(8), [8, 9, 10, 8, 10, 11]);
    assert!(quad_fits(MAX_TEXT_VERTICES - 4));
    assert!(!quad_fits(MAX_TEXT_VERTICES - 3));
}

#[test]
fn text_buffers_are_reserved_per_frame() {
    let mut cursor = TextFrameCursor::new();
    assert_eq!(cursor.reserve_quads(2), Some((0, 0)));
    assert_eq!(cursor.reserve_quads(1), Some((8, 12)));
    assert_eq!(cursor.position(), (12, 18));
    assert_eq!(cursor.reserve_quads(MAX_TEXT_VERTICES / 4), None);
    assert_eq!(cursor.reserve_quads(usize::MAX), None);
    assert_eq!(cursor.position(), (12, 18));
    assert_eq!(cursor.reserve_quads(0), Some((12, 18)));
    cursor.begin_frame();
    assert_eq!(cursor.position(), (0, 0));
    assert_eq!(cursor.reserve_quads(MAX_TEXT_VERTICES / 4), Some((0, 0)));
    assert_eq!(cursor.position(), (MAX_TEXT_VERTICES as u32, MAX_TEXT_INDICES as u32));
    assert_eq!(cursor.reserve_quads(1), None);
}

#[test]
fn each_rectangle_of_a_frame_takes_its_own_slot() {
    let mut slots = RectangleSlots::new();
    for n in 0..128u64 {
        assert_eq!(slots.take(256), Some(n * 256));
    }
    assert_eq!(slots.take(256), None);
    assert_eq!(slots.take(256), None);
    slots.begin_frame();
    assert_eq!(slots.take(256), Some(0));
    assert_eq!(slots.take(256), Some(256));
}

#[test]
fn empty_component_paints_one_background_rectangle() {
    let mut c = EmptyComponent::new();
    assert_eq!(c.children.len(), 1);
    c.color = (1, 2, 3, 4);
    let kids = c.children();
    assert_eq!(kids.len(), 1);
    assert_eq!(kids[0].layout_type, LayoutType::AbsolutePxPxGrowGrow(0, 0));
    assert_eq!(kids[0].element.color, (1, 2, 3, 4));
    assert_eq!(kids[0].element.rounding, None);
}

#[test]
fn row_component_fills_its_background_only_when_it_has_children() {
    let mut row = RowComponent::new();
    assert!(row.children.is_empty());
    assert!(row.children().is_empty());
    row.children.push(Layouted::new(EmptyComponent::new(), LayoutType::RowPx(10)));
    let kids = row.children();
    assert_eq!(kids.len(), 1);
    assert_eq!(kids[0].layout_type, LayoutType::AbsoluteBg);
}

#[test]
fn events_move_and_resize_components() {
    let mut r = Rectangle::new();
    r.handle_event(Events::Move { x: 3, y: 4 });
    r.handle_event(Events::Resize { width: 30, height: 40 });
    r.handle_event(Events::Hover { x: 100, y: 100 });
    assert_eq!((r.get_x(), r.get_y(), r.get_width(), r.get_height()), (3, 4, 30, 40));
    assert_eq!(r.color, (0, 0, 0, 255));
    let t = Text::new();
    assert_eq!(t.text, "");
    assert_eq!(t.font_size, 0.0f32.to_bits());
    let p = r.to_primitive();
    assert_eq!((p.x, p.y, p.width, p.height, p.color), (3, 4, 30, 40, (0, 0, 0, 255)));
}

#[test]
fn a_layout_step_moves_children_and_lists_what_to_do_next() {
    let mut rows = vec![
        Layouted::new(RowComponent::new(), LayoutType::AbsoluteBg),
        Layouted::new(RowComponent::new(), LayoutType::AbsoluteBg),
    ];
    rows[1].element.children.push(Layouted::new(EmptyComponent::new(), LayoutType::RowPx(1)));
    rows[0].effective_layout = Some((1, 2, 3, 4));
    rows[1].effective_layout = Some((5, 6, 7, 8));
    let steps = general_layout_step(&mut rows);
    assert_eq!(steps, vec![LayoutStep::Descend(1)]);
    assert_eq!((rows[0].element.x, rows[0].element.y, rows[0].element.width, rows[0].element.height), (1, 2, 3, 4));
    assert_eq!((rows[1].element.x, rows[1].element.height), (5, 8));

    let mut rects = vec![Layouted::new(Rectangle::new(), LayoutType::AbsoluteBg)];
    rects[0].effective_layout = Some((9, 9, 9, 9));
    assert_eq!(general_layout_step(&mut rects), vec![LayoutStep::Emit(0)]);
}

#[test]
fn defaults_are_empty_and_at_the_origin() {
    let r = Rectangle::default();
    assert_eq!((r.x, r.y, r.width, r.height, r.color, r.rounding), (0, 0, 0, 0, (0, 0, 0, 255), None));
    let t = Text::default();
    assert_eq!((t.text.as_str(), t.color, t.font_size), ("", (0, 0, 0, 255), 0));
    let e = EmptyComponent::default();
    assert_eq!((e.width, e.height, e.color), (0, 0, (0, 0, 0, 0)));
    assert!(e.children.is_empty());
    assert!(RowComponent::default().children.is_empty());
}

#[test]
fn a_layout_step_keeps_each_component_in_its_own_child() {
    let mut a = Rectangle::new();
    a.color = (1, 1, 1, 1);
    a.rounding = Some((5, 6, 7, 8));
    let mut b = Rectangle::new();
    b.color = (2, 2, 2, 2);
    let mut kids = vec![Layouted::new(a, LayoutType::AbsoluteBg), Layouted::new(b, LayoutType::AbsoluteBg)];
    kids[0].effective_layout = Some((1, 2, 3, 4));
    kids[1].effective_layout = Some((5, 6, 7, 8));
    general_layout_step(&mut kids);
    let e0 = &kids[0].element;
    let e1 = &kids[1].element;
    assert_eq!((e0.x, e0.y, e0.width, e0.height, e0.color, e0.rounding), (1, 2, 3, 4, (1, 1, 1, 1), Some((5, 6, 7, 8))));
    assert_eq!((e1.x, e1.y, e1.width, e1.height, e1.color, e1.rounding), (5, 6, 7, 8, (2, 2, 2, 2), None));
}

#[test]
fn setters_change_only_the_geometry() {
    let mut t = Text::new();
    t.text = "hi".to_string();
    t.color = (9, 8, 7, 6);
    t.font_size = 12.0f32.to_bits();
    t.set_x(1);
    t.set_y(2);
    t.set_width(3);
    t.set_height(4);
    assert_eq!((t.x, t.y, t.width, t.height), (1, 2, 3, 4));
    assert_eq!((t.text.as_str(), t.color, t.font_size), ("hi", (9, 8, 7, 6), 12.0f32.to_bits()));
}
