use compactor::materialize::ensure_dir_plan;
use compactor::materialize::DirAction;
use compactor::materialize::DirProbe;
use compactor::materialize::OutputError;

#[test]
fn absent_path_is_created() {
    assert_eq!(ensure_dir_plan(DirProbe::Absent), Ok(DirAction::Create));
}

#[test]
fn existing_directory_is_tolerated() {
    assert_eq!(ensure_dir_plan(DirProbe::Directory), Ok(DirAction::Nothing));
}

#[test]
fn path_collision_is_fatal() {
    assert_eq!(
        ensure_dir_plan(DirProbe::NonDirectory),
        Err(OutputError::OutputUnavailable)
    );
}

#[test]
fn ensuring_twice_never_fails_the_second_time() {
    // First call: the directory is absent and gets created, so the
    // second probe finds it in place.
    let first = ensure_dir_plan(DirProbe::Absent);
    assert!(first.is_ok());
    let second = ensure_dir_plan(DirProbe::Directory);
    assert_eq!(second, Ok(DirAction::Nothing));
    // And ensuring an already-ensured directory again still succeeds.
    let third = ensure_dir_plan(DirProbe::Directory);
    assert_eq!(third, Ok(DirAction::Nothing));
}
