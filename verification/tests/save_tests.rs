use orxnre::save::{load_data_path, save_path, wizard_answer, Answer, Wizard, WizardAction};

#[test]
fn save_path_in_directory() {
    assert_eq!(save_path("C:\\games"), "C:\\games\\save.zip");
}

#[test]
fn load_data_path_cases() {
    assert_eq!(load_data_path("D:\\x", true, true), "D:\\x\\save.zip");
    assert_eq!(load_data_path("D:\\x", true, false), "Disabled");
    assert_eq!(load_data_path("ERROR (x)", false, true), "Disabled");
}

#[test]
fn wizard_answers() {
    assert_eq!(wizard_answer('y'), Answer::Create);
    assert_eq!(wizard_answer('Y'), Answer::Create);
    assert_eq!(wizard_answer('n'), Answer::Cancel);
    assert_eq!(wizard_answer('N'), Answer::Cancel);
    assert_eq!(wizard_answer('q'), Answer::Ask);
}

#[test]
fn wizard_steps() {
    let mut w = Wizard::new(String::from("Disabled"));
    assert!(w.running());
    assert_eq!(w.step("C:\\g", Some('q')), WizardAction::Again);
    assert_eq!(w.step("C:\\g", None), WizardAction::Again);
    assert!(w.running());
    assert_eq!(w.step("C:\\g", Some('Y')), WizardAction::Write);
    assert_eq!(w.save, "C:\\g\\save.zip");
    assert!(!w.running());
    let mut w = Wizard::new(String::from("Disabled"));
    assert_eq!(w.step("C:\\g", Some('n')), WizardAction::Stop);
    assert_eq!(w.save, "Disabled");
    assert!(!Wizard::new(String::from("D:\\save.zip")).running());
}
