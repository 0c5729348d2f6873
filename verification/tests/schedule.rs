use bing_wallpaper::schedule::Command;
use bing_wallpaper::schedule::Directive;
use bing_wallpaper::schedule::Scheduler;
use bing_wallpaper::schedule::TickClock;
use bing_wallpaper::schedule::UPDATE_INTERVAL_MS;

#[test]
fn toggle_starts_then_stops_and_ticks_stay_flat() {
    let mut scheduler = Scheduler::new(10);
    assert!(!scheduler.running);

    assert_eq!(scheduler.handle_command(Command::ToggleDailyUpdate), Directive::StartDaily);
    assert!(scheduler.running);

    // The loop task the start spawned: first tick fires immediately.
    let mut clock = TickClock::new(0, scheduler.interval_ms);
    let mut run_count: u64 = 0;
    if clock.advance(0) {
        run_count += 1;
    }
    assert_eq!(run_count, 1);

    assert_eq!(scheduler.handle_command(Command::ToggleDailyUpdate), Directive::StopDaily);
    assert!(!scheduler.running);

    // Stop cancelled the task, so the clock is no longer polled; the counter
    // stays flat past the next interval boundary.
    for now in 0..=25u64 {
        if scheduler.running && clock.advance(now) {
            run_count += 1;
        }
    }
    assert_eq!(run_count, 1);
}

#[test]
fn start_is_idempotent() {
    let mut scheduler = Scheduler::new(10);
    assert!(scheduler.start());
    assert!(!scheduler.start());
    assert!(scheduler.running);
    assert!(scheduler.stop());
    assert!(!scheduler.stop());
    assert!(!scheduler.running);
}

#[test]
fn update_now_and_exit_leave_the_mode_alone() {
    let mut scheduler = Scheduler::new(10);
    assert_eq!(scheduler.handle_command(Command::UpdateNow), Directive::RunUpdate);
    assert!(!scheduler.running);
    scheduler.start();
    assert_eq!(scheduler.handle_command(Command::UpdateNow), Directive::RunUpdate);
    assert!(scheduler.running);
    assert_eq!(scheduler.handle_command(Command::Exit), Directive::Quit);
    assert!(scheduler.running);
}

#[test]
fn first_tick_fires_immediately() {
    let mut clock = TickClock::new(5, 10);
    assert!(!clock.advance(4));
    assert!(clock.advance(5));
    assert_eq!(clock.deadline, 15);
}

#[test]
fn missed_ticks_collapse_into_one_firing() {
    let mut clock = TickClock::new(0, 10);
    assert!(clock.advance(0));
    assert_eq!(clock.deadline, 10);

    // The consumer stalls past four interval boundaries; exactly one catch-up
    // firing happens, and the deadline lands on the next grid point.
    assert!(clock.advance(47));
    assert_eq!(clock.deadline, 50);
    assert!(!clock.advance(47));
    assert!(!clock.advance(49));
    assert!(clock.advance(50));
    assert_eq!(clock.deadline, 60);
}

#[test]
fn wakeup_before_the_deadline_does_not_fire() {
    let mut clock = TickClock::new(0, UPDATE_INTERVAL_MS);
    assert!(clock.advance(0));
    assert!(!clock.advance(UPDATE_INTERVAL_MS - 1));
    assert!(clock.advance(UPDATE_INTERVAL_MS));
}
