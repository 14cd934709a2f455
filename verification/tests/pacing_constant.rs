//! The pinned frame period: the refresh-rate reading, the floor of an
//! inexact division, with the work budget fitting inside it.

use aegis::compositor::{
    CompositorError, DeclaredPeriodUs, MAX_REFRESH_HZ, MIN_REFRESH_HZ, PACING_COMMENT_REFRESH_HZ,
    PacingSource, RENDER_IPC_BUDGET_US, SCAFFOLD_EVENT_LOOP_CYCLES, SCAFFOLD_LOOP_PERIOD_US,
    budget_fits_in_period, frame_period_us, pinned_frame_period_us,
};

#[test]
fn the_pinned_constant_is_the_refresh_rate_period() -> Result<(), CompositorError> {
    assert_eq!(pinned_frame_period_us().micros(), 6_944);
    assert_eq!(
        pinned_frame_period_us().micros(),
        frame_period_us(PACING_COMMENT_REFRESH_HZ)?
    );
    assert_eq!(
        pinned_frame_period_us().source(),
        PacingSource::RefreshRateComment
    );
    assert_eq!(PACING_COMMENT_REFRESH_HZ, 144);
    Ok(())
}

#[test]
fn the_three_recorded_figures_are_distinct() {
    assert_eq!(SCAFFOLD_LOOP_PERIOD_US, 100);
    assert_eq!(RENDER_IPC_BUDGET_US, 1_500);
    assert_eq!(SCAFFOLD_EVENT_LOOP_CYCLES, 200);
    let figures = [
        SCAFFOLD_LOOP_PERIOD_US,
        RENDER_IPC_BUDGET_US,
        pinned_frame_period_us().micros(),
    ];
    let mut sorted = figures.to_vec();
    sorted.sort_unstable();
    sorted.dedup();
    assert_eq!(sorted.len(), 3);
    assert_eq!(PacingSource::ALL.len(), 3);
}

#[test]
fn the_work_budget_fits_inside_the_pinned_period() {
    assert!(budget_fits_in_period(pinned_frame_period_us()));
    assert!(RENDER_IPC_BUDGET_US < pinned_frame_period_us().micros());
}

#[test]
fn only_two_of_the_three_readings_are_periods() {
    assert!(PacingSource::ScaffoldLiteral.is_a_period());
    assert!(PacingSource::RefreshRateComment.is_a_period());
    assert!(!PacingSource::RenderIpcBudget.is_a_period());
    let mut names: Vec<&str> = PacingSource::ALL.iter().map(|s| s.name()).collect();
    names.sort_unstable();
    names.dedup();
    assert_eq!(names.len(), 3);
    assert_eq!(PacingSource::RenderIpcBudget.name(), "render-ipc-budget");
}

#[test]
fn the_pinned_constant_is_not_the_other_two_figures() {
    assert_ne!(pinned_frame_period_us().micros(), SCAFFOLD_LOOP_PERIOD_US);
    assert_ne!(pinned_frame_period_us().micros(), RENDER_IPC_BUDGET_US);
    assert!(pinned_frame_period_us().micros() > SCAFFOLD_LOOP_PERIOD_US);
    let wakeups = pinned_frame_period_us()
        .micros()
        .checked_div(SCAFFOLD_LOOP_PERIOD_US)
        .unwrap_or(0);
    assert_eq!(wakeups, 69);
}

#[test]
fn the_pinned_value_says_it_is_unmeasured() {
    let rendered = pinned_frame_period_us().text();
    assert!(rendered.contains("unmeasured"));
    assert!(rendered.contains("declared by refresh-rate-comment"));
    assert!(rendered.starts_with("6944 us"));
    assert_eq!(rendered, "6944 us (declared by refresh-rate-comment, unmeasured)");
}

#[test]
fn the_consistency_check_can_fail() {
    let too_short = DeclaredPeriodUs::new(RENDER_IPC_BUDGET_US, PacingSource::RenderIpcBudget);
    assert!(!budget_fits_in_period(too_short));
    let shorter = DeclaredPeriodUs::new(SCAFFOLD_LOOP_PERIOD_US, PacingSource::ScaffoldLiteral);
    assert!(!budget_fits_in_period(shorter));
}

#[test]
fn the_period_arithmetic_is_exact_at_both_ends() -> Result<(), CompositorError> {
    assert_eq!(frame_period_us(MIN_REFRESH_HZ)?, 1_000_000);
    assert_eq!(frame_period_us(MAX_REFRESH_HZ)?, 1);
    assert_eq!(frame_period_us(60)?, 16_666);
    assert_eq!(
        frame_period_us(0),
        Err(CompositorError::RefreshRateOutOfRange {
            hz: 0,
            min: MIN_REFRESH_HZ,
            max: MAX_REFRESH_HZ,
        })
    );
    assert_eq!(
        frame_period_us(MAX_REFRESH_HZ.saturating_add(1)),
        Err(CompositorError::RefreshRateOutOfRange {
            hz: MAX_REFRESH_HZ.saturating_add(1),
            min: MIN_REFRESH_HZ,
            max: MAX_REFRESH_HZ,
        })
    );
    assert_eq!((MIN_REFRESH_HZ, MAX_REFRESH_HZ), (1, 1_000_000));
    Ok(())
}

#[test]
fn the_pinned_period_is_the_floor_of_an_inexact_division() -> Result<(), CompositorError> {
    let period = frame_period_us(PACING_COMMENT_REFRESH_HZ)?;
    assert_eq!(period, 6_944);
    assert_eq!(period.saturating_mul(PACING_COMMENT_REFRESH_HZ), 999_936);
    assert!(period.saturating_mul(PACING_COMMENT_REFRESH_HZ) < MAX_REFRESH_HZ);
    assert!(
        period
            .saturating_add(1)
            .saturating_mul(PACING_COMMENT_REFRESH_HZ)
            > MAX_REFRESH_HZ
    );
    Ok(())
}

#[test]
fn an_out_of_range_rate_names_the_range() {
    assert_eq!(
        CompositorError::RefreshRateOutOfRange { hz: 0, min: 1, max: 1_000_000 }.message(),
        "a refresh rate of 0 Hz is outside 1..=1000000"
    );
}
