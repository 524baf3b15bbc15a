use ronincraft::gadget::GadgetForm;
use ronincraft::states::{on_escape, press_button, CameraMode, GameState, MenuButton, MenuOutcome};

const FORMS: [GadgetForm; 4] = [GadgetForm::Pickaxe, GadgetForm::Sword, GadgetForm::Axe, GadgetForm::Shovel];

#[test]
fn forms_cycle() {
    assert_eq!(GadgetForm::default(), GadgetForm::Pickaxe);
    assert_eq!(GadgetForm::Pickaxe.next(), GadgetForm::Sword);
    assert_eq!(GadgetForm::Shovel.next(), GadgetForm::Pickaxe);
    assert_eq!(GadgetForm::Pickaxe.prev(), GadgetForm::Shovel);
    for f in FORMS {
        assert_eq!(f.next().prev(), f);
        assert_eq!(f.prev().next(), f);
        assert_eq!(f.next().next().next().next(), f);
    }
}

#[test]
fn form_stats() {
    assert_eq!(GadgetForm::Sword.attack_damage(), 7);
    assert_eq!(GadgetForm::Axe.attack_damage(), 5);
    assert_eq!(GadgetForm::Pickaxe.attack_damage(), 3);
    assert_eq!(GadgetForm::Shovel.attack_damage(), 2);
    assert_eq!(GadgetForm::Sword.attack_reach(), 4);
    assert_eq!(GadgetForm::Axe.attack_reach(), 3);
    assert_eq!(GadgetForm::Sword.attack_cooldown(), 500);
    assert_eq!(GadgetForm::Shovel.attack_cooldown(), 1000);
    assert_eq!(GadgetForm::Pickaxe.mining_speed_multiplier(), 20);
    assert_eq!(GadgetForm::Axe.mining_speed_multiplier(), 15);
    assert_eq!(GadgetForm::Shovel.mining_speed_multiplier(), 15);
    assert_eq!(GadgetForm::Sword.mining_speed_multiplier(), 5);
    assert_eq!(GadgetForm::Pickaxe.display_name(), "Pickaxe");
    assert_eq!(GadgetForm::Shovel.display_name(), "Shovel");
    assert!(!GadgetForm::Sword.can_mine());
    assert!(GadgetForm::Axe.can_mine());
}

#[test]
fn save_ids() {
    for (i, f) in FORMS.iter().enumerate() {
        assert_eq!(f.save_id() as usize, i);
        assert_eq!(GadgetForm::from_save_id(f.save_id()), *f);
    }
    assert_eq!(GadgetForm::from_save_id(200), GadgetForm::Pickaxe);
}

#[test]
fn switch_keys() {
    assert_eq!(GadgetForm::Axe.apply_switch_keys(true, false), (GadgetForm::Shovel, true));
    assert_eq!(GadgetForm::Axe.apply_switch_keys(false, true), (GadgetForm::Sword, true));
    assert_eq!(GadgetForm::Axe.apply_switch_keys(true, true), (GadgetForm::Axe, true));
    assert_eq!(GadgetForm::Axe.apply_switch_keys(false, false), (GadgetForm::Axe, false));
}

#[test]
fn escape_toggles_pause() {
    assert_eq!(on_escape(GameState::InGame), Some(GameState::Paused));
    assert_eq!(on_escape(GameState::Paused), Some(GameState::InGame));
    assert_eq!(on_escape(GameState::MainMenu), None);
    assert_eq!(GameState::default(), GameState::Loading);
}

#[test]
fn menu_buttons() {
    let go = |s: GameState| MenuOutcome { next: Some(s), save_requested: false, options_return_to_menu: false };
    let nothing = MenuOutcome { next: None, save_requested: false, options_return_to_menu: false };
    assert_eq!(press_button(GameState::MainMenu, MenuButton::NewWorld, false, GameState::MainMenu), go(GameState::InGame));
    assert_eq!(press_button(GameState::MainMenu, MenuButton::LoadWorld, false, GameState::MainMenu), nothing);
    assert_eq!(press_button(GameState::MainMenu, MenuButton::LoadWorld, true, GameState::MainMenu), go(GameState::InGame));
    assert_eq!(
        press_button(GameState::MainMenu, MenuButton::Options, false, GameState::Paused),
        MenuOutcome { next: Some(GameState::Options), save_requested: false, options_return_to_menu: true }
    );
    assert_eq!(press_button(GameState::Options, MenuButton::OptionsBack, false, GameState::Paused), go(GameState::Paused));
    assert_eq!(
        press_button(GameState::Paused, MenuButton::QuitToMenu, false, GameState::MainMenu),
        MenuOutcome { next: Some(GameState::MainMenu), save_requested: true, options_return_to_menu: false }
    );
    assert_eq!(
        press_button(GameState::Paused, MenuButton::SaveWorld, false, GameState::MainMenu),
        MenuOutcome { next: None, save_requested: true, options_return_to_menu: false }
    );
    assert_eq!(press_button(GameState::Instructions, MenuButton::InstructionsBack, false, GameState::MainMenu), go(GameState::MainMenu));
    assert_eq!(press_button(GameState::InGame, MenuButton::Resume, false, GameState::MainMenu), nothing);
}

#[test]
fn camera_toggle() {
    assert_eq!(CameraMode::default(), CameraMode::FirstPerson);
    assert_eq!(CameraMode::FirstPerson.toggled(), CameraMode::ThirdPerson);
    assert_eq!(CameraMode::ThirdPerson.toggled(), CameraMode::FirstPerson);
    assert!(CameraMode::ThirdPerson.shows_character());
    assert!(!CameraMode::FirstPerson.shows_character());
}
