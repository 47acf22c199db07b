use bevy_egui::{EguiSet, EguiStartupSet};

#[test]
fn stages_run_in_order() {
    let stages = [EguiSet::InitContexts, EguiSet::ProcessInput, EguiSet::BeginPass, EguiSet::ProcessOutput];
    for (i, a) in stages.iter().enumerate() {
        for (j, b) in stages.iter().enumerate() {
            assert_eq!(a.runs_before(*b), i < j);
        }
    }
}

#[test]
fn each_stage_follows_the_one_before() {
    assert_eq!(EguiSet::InitContexts.after(), None);
    assert_eq!(EguiSet::ProcessInput.after(), Some(EguiSet::InitContexts));
    assert_eq!(EguiSet::BeginPass.after(), Some(EguiSet::ProcessInput));
    assert_eq!(EguiSet::ProcessOutput.after(), Some(EguiSet::BeginPass));
    assert_eq!(EguiStartupSet::InitContexts, EguiStartupSet::InitContexts);
}
