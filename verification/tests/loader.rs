use plugin_sdk::loader::{LoadStep, Loader, StepResult};
use plugin_sdk::plugin::LoadOutcome;

fn fresh() -> Loader {
    Loader::new("/plugins/alpha".to_string(), "/plugins/alpha/main.py".to_string())
}

fn run(results: Vec<StepResult>) -> Loader {
    let mut loader = fresh();
    for result in results {
        loader.advance(result);
    }
    loader
}

fn done() -> StepResult {
    StepResult::Succeeded(None)
}

#[test]
fn steps_come_in_the_fixed_order() {
    let mut loader = fresh();
    assert_eq!(loader.next_step(), LoadStep::RegisterDirectory("/plugins/alpha".to_string()));
    assert_eq!(loader.outcome(), None);
    loader.advance(done());
    assert_eq!(loader.next_step(), LoadStep::ImportModule("/plugins/alpha/main.py".to_string()));
    loader.advance(done());
    assert_eq!(loader.next_step(), LoadStep::FindFunction("atorrlinker_advertise".to_string()));
    loader.advance(done());
    assert_eq!(loader.next_step(), LoadStep::CallFunction);
    assert_eq!(loader.outcome(), None);
    loader.advance(StepResult::Succeeded(Some("[]".to_string())));
    assert_eq!(loader.next_step(), LoadStep::Finished(LoadOutcome::Advertised("[]".to_string())));
    assert_eq!(loader.outcome(), Some(&LoadOutcome::Advertised("[]".to_string())));
}

#[test]
fn asking_again_does_not_move_the_loader() {
    let loader = fresh();
    assert_eq!(loader.next_step(), loader.next_step());
    let loader = run(vec![done(), done()]);
    assert_eq!(loader.next_step(), LoadStep::FindFunction("atorrlinker_advertise".to_string()));
    assert_eq!(loader.next_step(), LoadStep::FindFunction("atorrlinker_advertise".to_string()));
}

#[test]
fn each_step_fails_in_its_own_way() {
    assert_eq!(run(vec![StepResult::Failed]).outcome(), Some(&LoadOutcome::ModuleLoadFailed));
    assert_eq!(
        run(vec![done(), StepResult::Failed]).outcome(),
        Some(&LoadOutcome::ModuleLoadFailed)
    );
    assert_eq!(
        run(vec![done(), done(), StepResult::Failed]).outcome(),
        Some(&LoadOutcome::AdvertiseFunctionMissing)
    );
    assert_eq!(
        run(vec![done(), done(), done(), StepResult::Failed]).outcome(),
        Some(&LoadOutcome::AdvertiseCallFailed)
    );
    assert_eq!(
        run(vec![done(), done(), done(), done()]).outcome(),
        Some(&LoadOutcome::AdvertiseResultMalformed)
    );
}

#[test]
fn text_handed_over_before_the_call_is_not_read() {
    let early = || StepResult::Succeeded(Some("[]".to_string()));
    let loader = run(vec![early(), early(), early()]);
    assert_eq!(loader.outcome(), None);
    assert_eq!(loader.next_step(), LoadStep::CallFunction);
}

#[test]
fn a_loader_that_has_ended_stays_as_it_is() {
    let mut loader = run(vec![done(), StepResult::Failed]);
    loader.advance(done());
    loader.advance(StepResult::Succeeded(Some("[]".to_string())));
    loader.advance(StepResult::Failed);
    assert_eq!(loader.outcome(), Some(&LoadOutcome::ModuleLoadFailed));
    assert_eq!(loader.next_step(), LoadStep::Finished(LoadOutcome::ModuleLoadFailed));
}
