use render_core::debug::{Stage, TimeBuffer};
use std::time::{Duration, Instant};

#[test]
fn the_mean_of_nothing_is_zero() {
    let buffer = TimeBuffer::new(4);
    assert_eq!(buffer.average(), 0);
}

#[test]
fn the_mean_spans_the_first_slots() {
    // The first sample goes to the second slot, and the mean of one sample
    // is taken over the first slot.
    let mut buffer = TimeBuffer::new(4);
    buffer.push(100);
    assert_eq!(buffer.average(), 0);
    buffer.push(200);
    assert_eq!(buffer.average(), 50);
    buffer.push(300);
    assert_eq!(buffer.average(), 100);
    buffer.push(400);
    assert_eq!(buffer.average(), 250);
    buffer.push(500);
    assert_eq!(buffer.average(), 350);
    buffer.push(1);
    assert_eq!(buffer.average(), 300);
}

#[test]
fn the_mean_of_large_samples_does_not_overflow() {
    let mut buffer = TimeBuffer::new(2);
    buffer.push(u64::MAX);
    buffer.push(u64::MAX);
    assert_eq!(buffer.average(), u64::MAX);
    let mut one = TimeBuffer::new(1);
    one.push(7);
    assert_eq!(one.average(), 7);
    one.push(9);
    assert_eq!(one.average(), 9);
}

#[test]
fn the_overlay_is_empty_while_switched_off() {
    let mut debug = render_core::debug::Debug::new();
    assert!(debug.overlay().is_empty());
    debug.log_message(&1);
    assert!(debug.overlay().is_empty());
    debug.toggle();
    assert!(!debug.overlay().is_empty());
    debug.toggle();
    assert!(debug.overlay().is_empty());
    assert!(render_core::debug::Debug::default().overlay().is_empty());
}

#[test]
fn the_overlay_lists_each_stage() {
    let mut debug = render_core::debug::Debug::new();
    debug.toggle();
    let lines = debug.overlay();
    assert_eq!(
        lines,
        vec![
            "render_core 0.1.0",
            "Startup: 0ns",
            "Update: 0ns",
            "View: 0ns",
            "Layout: 0ns",
            "Event processing: 0ns",
            "Primitive generation: 0ns",
            "Render: 0ns",
            "Layer Generation: 0ns",
            "Triangle Draw: 0ns",
            "Swap Buffer: 0ns",
            "Message count: 0",
            "Last messages:",
        ]
    );
}

#[test]
fn recorded_times_are_shown() {
    let mut debug = render_core::debug::Debug::new();
    debug.toggle();
    debug.record(Stage::Startup, 1_500_000);
    for _ in 0..200 {
        debug.record(Stage::Update, 2_000);
        debug.record(Stage::View, 3_000);
        debug.record(Stage::Layout, 4_000);
        debug.record(Stage::EventProcessing, 5_000);
        debug.record(Stage::Draw, 6_000);
    }
    for _ in 0..50 {
        debug.record(Stage::Render, 7_000_000_000);
        debug.record(Stage::LayerGeneration, 8);
        debug.record(Stage::TriangleDraw, 9_000);
        debug.record(Stage::SwapBuffer, 10_000);
    }
    let lines = debug.overlay();
    assert_eq!(lines[1], "Startup: 1.5ms");
    assert_eq!(lines[2], "Update: 2µs");
    assert_eq!(lines[3], "View: 3µs");
    assert_eq!(lines[4], "Layout: 4µs");
    assert_eq!(lines[5], "Event processing: 5µs");
    assert_eq!(lines[6], "Primitive generation: 6µs");
    assert_eq!(lines[7], "Render: 7s");
    assert_eq!(lines[8], "Layer Generation: 8ns");
    assert_eq!(lines[9], "Triangle Draw: 9µs");
    assert_eq!(lines[10], "Swap Buffer: 10µs");
}

#[test]
fn the_last_ten_messages_are_kept() {
    let mut debug = render_core::debug::Debug::new();
    debug.toggle();
    for i in 0..12 {
        debug.log_message(&i);
    }
    let lines = debug.overlay();
    assert_eq!(lines[11], "Message count: 12");
    assert_eq!(lines[12], "Last messages:");
    assert_eq!(lines.len(), 23);
    for i in 0..10 {
        assert_eq!(lines[13 + i], format!("    {}", i + 2));
    }
}

#[test]
fn messages_are_logged_as_their_debug_text() {
    let mut debug = render_core::debug::Debug::new();
    debug.toggle();
    debug.log_message(&"quoted");
    debug.log_message(&Some(3));
    debug.log_text(String::from("plain"));
    let lines = debug.overlay();
    assert_eq!(lines[11], "Message count: 3");
    assert_eq!(lines[13], "    \"quoted\"");
    assert_eq!(lines[14], "    Some(3)");
    assert_eq!(lines[15], "    plain");
}

#[test]
fn long_messages_are_cut() {
    let mut debug = render_core::debug::Debug::new();
    debug.toggle();
    debug.log_text("a".repeat(100));
    debug.log_text("b".repeat(101));
    // Fifty characters of two bytes each: more than a hundred bytes, and no
    // more than a hundred characters.
    debug.log_text("é".repeat(51));
    debug.log_text("é".repeat(120));
    let lines = debug.overlay();
    assert_eq!(lines[13], format!("    {}", "a".repeat(100)));
    assert_eq!(lines[14], format!("    {}...", "b".repeat(100)));
    assert_eq!(lines[15], format!("    {}...", "é".repeat(51)));
    assert_eq!(lines[16], format!("    {}...", "é".repeat(100)));
}

#[test]
fn the_stages_are_timed_by_the_clock() {
    let mut debug = render_core::debug::Debug::new();
    debug.toggle();
    debug.startup_started();
    debug.startup_finished();
    debug.update_started();
    debug.update_finished();
    debug.view_started();
    debug.view_finished();
    debug.layout_started();
    debug.layout_finished();
    debug.event_processing_started();
    debug.event_processing_finished();
    debug.draw_started();
    debug.draw_finished();
    debug.render_started();
    debug.layer_generation_start();
    debug.layer_generation_finished();
    debug.triangle_draw_start();
    debug.triangle_draw_end();
    debug.swap_buffer_start();
    debug.swap_buffer_end();
    debug.render_finished();
    let lines = debug.overlay();
    assert_eq!(lines.len(), 13);
    assert!(lines[1].starts_with("Startup: "));
    assert!(lines[1].len() > "Startup: ".len());
    // One sample in a ring: the mean is still taken over the first slot.
    assert_eq!(lines[2], "Update: 0ns");
    assert_eq!(lines[11], "Message count: 0");
}

#[test]
fn a_stage_is_measured_from_where_it_has_begun() {
    let long_ago = Instant::now() - Duration::from_secs(3600);
    let mut debug = render_core::debug::Debug::at(long_ago);
    debug.toggle();
    // The startup has begun an hour ago.
    debug.startup_finished();
    assert!(debug.overlay()[1].starts_with("Startup: 36"));
    // It begins anew now.
    debug.startup_started();
    debug.startup_finished();
    assert!(!debug.overlay()[1].starts_with("Startup: 36"));
    // It has begun an hour ago once more.
    debug.begin(Stage::Startup, long_ago);
    debug.startup_finished();
    assert!(debug.overlay()[1].starts_with("Startup: 36"));
}

#[test]
fn each_stage_has_a_start_of_its_own() {
    let long_ago = Instant::now() - Duration::from_secs(7200);
    let mut debug = render_core::debug::Debug::new();
    debug.toggle();
    // Fifty renderings that have begun two hours ago, and fifty swaps of
    // buffers that begin now.
    for _ in 0..50 {
        debug.begin(Stage::Render, long_ago);
        debug.swap_buffer_start();
        debug.render_finished();
        debug.swap_buffer_end();
    }
    let lines = debug.overlay();
    assert!(lines[7].starts_with("Render: 72"));
    assert!(!lines[10].starts_with("Swap Buffer: 72"));
    // Fifty renderings that begin now take the place of the others.
    for _ in 0..50 {
        debug.render_started();
        debug.render_finished();
    }
    assert!(!debug.overlay()[7].starts_with("Render: 72"));
}

#[test]
fn the_start_of_every_stage_is_taken_from_the_clock() {
    let long_ago = Instant::now() - Duration::from_secs(3600);
    let stages = [
        Stage::Update,
        Stage::View,
        Stage::Layout,
        Stage::EventProcessing,
        Stage::Draw,
        Stage::Render,
        Stage::LayerGeneration,
        Stage::TriangleDraw,
        Stage::SwapBuffer,
    ];
    let mut debug = render_core::debug::Debug::at(long_ago);
    debug.toggle();
    debug.update_started();
    debug.view_started();
    debug.layout_started();
    debug.event_processing_started();
    debug.draw_started();
    debug.render_started();
    debug.layer_generation_start();
    debug.triangle_draw_start();
    debug.swap_buffer_start();
    for _ in 0..200 {
        debug.update_finished();
        debug.view_finished();
        debug.layout_finished();
        debug.event_processing_finished();
        debug.draw_finished();
        debug.render_finished();
        debug.layer_generation_finished();
        debug.triangle_draw_end();
        debug.swap_buffer_end();
    }
    let lines = debug.overlay();
    for (i, _) in stages.iter().enumerate() {
        // No mean is anywhere near the hour since which the stages had
        // begun before.
        let line = &lines[2 + i];
        let in_seconds = line.ends_with('s')
            && line.chars().rev().nth(1).map_or(false, |c| c.is_ascii_digit());
        assert!(!in_seconds, "{}", line);
    }
}
