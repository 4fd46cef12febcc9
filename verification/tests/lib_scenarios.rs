use the_goose::Command;
use the_goose::Error;
use the_goose::Event;
use the_goose::SampleTheGoose;
use the_goose::SimpleTheGoose;

#[test]
fn lib_test_scenario_1_1() {
    let mut the_goose = SampleTheGoose::new();

    assert_eq!(
        the_goose.execute(Command::Add("Pippo".to_string())),
        Ok(vec![Event::Players(vec!["Pippo".to_string()])])
    );

    assert_eq!(
        the_goose.execute(Command::Add("Pluto".to_string())),
        Ok(vec![Event::Players(vec![
            "Pippo".to_string(),
            "Pluto".to_string()
        ])])
    );
}

#[test]
fn lib_test_scenario_1_2() {
    let mut the_goose = SampleTheGoose::new();

    the_goose.execute(Command::Add("Pippo".to_string())).ok();

    assert_eq!(
        the_goose.execute(Command::Add("Pippo".to_string())),
        Err(Error::DuplicatePlayer("Pippo".to_string()))
    );
}

#[test]
fn lib_test_scenario_1_3() {
    let mut the_goose = SampleTheGoose::new();

    the_goose.execute(Command::Add("Pippo".to_string())).ok();

    assert_eq!(
        the_goose.execute(Command::Remove("Pippo".to_string())),
        Ok(vec![Event::Players(Vec::new())])
    );
}

#[test]
fn lib_test_scenario_2_1() {
    let mut the_goose = SampleTheGoose::new();

    the_goose.execute(Command::Add("Pippo".to_string())).ok();
    the_goose.execute(Command::Add("Pluto".to_string())).ok();

    assert_eq!(
        the_goose.execute(Command::Move("Pippo".to_string(), 4, 2)),
        Ok(vec![
            Event::Roll("Pippo".to_string(), 4, 2),
            Event::Moved("Pippo".to_string(), 0, 6),
            Event::Jump("Pippo".to_string(), 12)
        ])
    );

    assert_eq!(
        the_goose.execute(Command::Move("Pluto".to_string(), 2, 2)),
        Ok(vec![
            Event::Roll("Pluto".to_string(), 2, 2),
            Event::Moved("Pluto".to_string(), 0, 4)
        ])
    );

    assert_eq!(
        the_goose.execute(Command::Move("Pippo".to_string(), 2, 3)),
        Ok(vec![
            Event::Roll("Pippo".to_string(), 2, 3),
            Event::Moved("Pippo".to_string(), 12, 17)
        ])
    );
}

#[test]
fn lib_test_scenario_3_1() {
    let mut the_goose = SampleTheGoose::new();

    the_goose.insert("Pippo".to_string(), 60);

    assert_eq!(
        the_goose.execute(Command::Move("Pippo".to_string(), 1, 2)),
        Ok(vec![
            Event::Roll("Pippo".to_string(), 1, 2),
            Event::Moved("Pippo".to_string(), 60, 63),
            Event::Win("Pippo".to_string())
        ])
    );
}

#[test]
fn lib_test_scenario_3_2() {
    let mut the_goose = SampleTheGoose::new();

    the_goose.insert("Pippo".to_string(), 60);

    assert_eq!(
        the_goose.execute(Command::Move("Pippo".to_string(), 3, 2)),
        Ok(vec![
            Event::Roll("Pippo".to_string(), 3, 2),
            Event::Moved("Pippo".to_string(), 60, 63),
            Event::Bounced("Pippo".to_string()),
            Event::Return("Pippo".to_string(), 62)
        ])
    );
}

#[test]
fn lib_test_scenario_4_1() {
    let mut the_goose = SimpleTheGoose::new(vec![1, 2]);

    the_goose.state.insert("Pippo".to_string(), 3);

    assert_eq!(
        the_goose.execute(Command::RollAndMove("Pippo".to_string())),
        Ok(vec![
            Event::Roll("Pippo".to_string(), 1, 2),
            Event::Moved("Pippo".to_string(), 3, 6),
            Event::Jump("Pippo".to_string(), 12)
        ])
    );
}

#[test]
fn lib_test_scenario_5_1() {
    let mut the_goose = SimpleTheGoose::new(vec![1, 1]);

    the_goose.state.insert("Pippo".to_string(), 4);

    assert_eq!(
        the_goose.execute(Command::RollAndMove("Pippo".to_string())),
        Ok(vec![
            Event::Roll("Pippo".to_string(), 1, 1),
            Event::Moved("Pippo".to_string(), 4, 6),
            Event::Jump("Pippo".to_string(), 12)
        ])
    );
}

#[test]
fn lib_test_scenario_6_1() {
    let mut the_goose = SimpleTheGoose::new(vec![1, 1]);

    the_goose.state.insert("Pippo".to_string(), 3);

    assert_eq!(
        the_goose.execute(Command::RollAndMove("Pippo".to_string())),
        Ok(vec![
            Event::Roll("Pippo".to_string(), 1, 1),
            Event::Moved("Pippo".to_string(), 3, 5),
            Event::MovedAgain("Pippo".to_string(), 5, 7)
        ])
    );
}

#[test]
fn lib_test_scenario_6_2() {
    let mut the_goose = SimpleTheGoose::new(vec![2, 2]);

    the_goose.state.insert("Pippo".to_string(), 10);

    assert_eq!(
        the_goose.execute(Command::RollAndMove("Pippo".to_string())),
        Ok(vec![
            Event::Roll("Pippo".to_string(), 2, 2),
            Event::Moved("Pippo".to_string(), 10, 14),
            Event::MovedAgain("Pippo".to_string(), 14, 18),
            Event::MovedAgain("Pippo".to_string(), 18, 22)
        ])
    );
}

#[test]
fn lib_test_scenario_7_1() {
    let mut the_goose = SimpleTheGoose::new(vec![1, 1]);

    the_goose.state.insert("Pippo".to_string(), 15);
    the_goose.state.insert("Pluto".to_string(), 17);

    assert_eq!(
        the_goose.execute(Command::RollAndMove("Pippo".to_string())),
        Ok(vec![
            Event::Roll("Pippo".to_string(), 1, 1),
            Event::Moved("Pippo".to_string(), 15, 17),
            Event::Prank("Pluto".to_string(), 17, 15)
        ])
    );
}
