use std::time::Duration;

use mage_core::render::{
    on_frame_error, plan_resize, present, should_render, tick, FrameAction, FrameError,
    ResizePlan, Screen,
};
use mage_core::{App, PresentInput, PresentResult, TickInput, TickResult};

#[test]
fn plan_resize_cases() {
    assert_eq!(plan_resize((40, 30), (8, 8), (0, 240)), ResizePlan::Ignore);
    assert_eq!(plan_resize((40, 30), (8, 8), (327, 247)), ResizePlan::Reconfigure);
    assert_eq!(plan_resize((40, 30), (8, 8), (328, 240)), ResizePlan::Rebuild(41, 30));
}

#[test]
fn screen_new_fits_whole_cells() {
    let screen = Screen::new((8, 16), (100, 100));
    assert_eq!(screen.size_in_chars(), (12, 6));
    assert_eq!(screen.fore_image, vec![0; 72]);
    assert_eq!(screen.back_image.len(), 72);
    assert_eq!(screen.text_image.len(), 72);
}

#[test]
fn resize_within_same_cells_keeps_content() {
    let mut screen = Screen::new((8, 8), (320, 240));
    screen.fore_image[5] = 11;
    screen.back_image[6] = 12;
    screen.text_image[7] = 13;
    let plan = screen.resize((327, 247));
    assert_eq!(plan, ResizePlan::Reconfigure);
    assert_eq!(screen.size_in_chars(), (40, 30));
    assert_eq!(screen.fore_image[5], 11);
    assert_eq!(screen.back_image[6], 12);
    assert_eq!(screen.text_image[7], 13);
}

#[test]
fn resize_to_new_cells_rebuilds() {
    let mut screen = Screen::new((8, 8), (320, 240));
    screen.fore_image[5] = 11;
    let plan = screen.resize((160, 80));
    assert_eq!(plan, ResizePlan::Rebuild(20, 10));
    assert_eq!(screen.size_in_chars(), (20, 10));
    assert_eq!(screen.fore_image, vec![0; 200]);
    assert_eq!(screen.text_image.len(), 200);
}

#[test]
fn resize_to_zero_is_ignored() {
    let mut screen = Screen::new((8, 8), (320, 240));
    screen.text_image[0] = 3;
    assert_eq!(screen.resize((0, 0)), ResizePlan::Ignore);
    assert_eq!(screen.size_in_chars(), (40, 30));
    assert_eq!(screen.text_image[0], 3);
}

#[test]
fn frame_errors() {
    assert_eq!(on_frame_error(FrameError::Lost), FrameAction::Reconfigure);
    assert_eq!(on_frame_error(FrameError::Outdated), FrameAction::Reconfigure);
    assert_eq!(on_frame_error(FrameError::OutOfMemory), FrameAction::Exit);
    assert_eq!(on_frame_error(FrameError::Timeout), FrameAction::Skip);
    assert_eq!(on_frame_error(FrameError::Other), FrameAction::Skip);
}

struct Painter {
    ticks: u32,
    seen: Option<TickInput>,
}

impl App for Painter {
    fn tick(&mut self, tick_input: TickInput) -> TickResult {
        self.ticks += 1;
        self.seen = Some(tick_input);
        if self.ticks > 1 {
            TickResult::Quit
        } else {
            TickResult::Continue
        }
    }

    fn present(&mut self, mut present_input: PresentInput) -> PresentResult {
        let rect = present_input.rect();
        present_input.clear(rect, 0xff00ff00);
        PresentResult::Changed
    }
}

#[test]
fn tick_and_present_hand_over_the_screen() {
    let mut screen = Screen::new((8, 8), (32, 16));
    let mut app = Painter { ticks: 0, seen: None };
    assert_eq!(tick(&mut app, &screen, Duration::from_millis(16)), TickResult::Continue);
    let seen = app.seen.unwrap();
    assert_eq!((seen.width, seen.height), (4, 2));
    assert_eq!(seen.dt, Duration::from_millis(16));
    assert_eq!(tick(&mut app, &screen, Duration::from_millis(16)), TickResult::Quit);
    assert_eq!(present(&mut app, &mut screen), PresentResult::Changed);
    assert_eq!(screen.fore_image, vec![0xff00ff00; 8]);
    assert_eq!(screen.back_image, vec![0xff00ff00; 8]);
}

#[test]
fn render_only_when_changed() {
    assert!(should_render(PresentResult::Changed));
    assert!(!should_render(PresentResult::NoChanges));
}

#[test]
fn tick_input_reports_grid() {
    let screen = Screen::new((8, 16), (100, 100));
    let input = screen.tick_input(Duration::from_millis(5));
    assert_eq!(input.dt, Duration::from_millis(5));
    assert_eq!((input.width, input.height), (12, 6));
}

#[test]
fn present_input_lends_live_planes() {
    let mut screen = Screen::new((8, 8), (24, 16));
    screen.back_image[4] = 9;
    {
        let input = screen.present_input();
        assert_eq!((input.width, input.height), (3, 2));
        assert_eq!(input.back_image[4], 9);
        input.text_image[1] = 65;
    }
    assert_eq!(screen.text_image, vec![0, 65, 0, 0, 0, 0]);
}
