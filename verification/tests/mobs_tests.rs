use ronincraft::biome::BiomeType;
use ronincraft::mobs::{
    decide, pig_decide, skeleton_decide, zombie_decide, AiPhase, AiTransition, AttackDelay, IdleTime, MobType, Motion,
    Senses,
};

fn calm() -> Senses {
    Senses {
        detects_player: false,
        within_attack: false,
        beyond_attack_hold: false,
        lost_player: false,
        too_close: false,
        timer_expired: false,
        reached_target: false,
    }
}

#[test]
fn zombie_hunts() {
    let seen = Senses { detects_player: true, ..calm() };
    assert_eq!(zombie_decide(AiPhase::Idle, seen).transition, AiTransition::ToChase);
    let close = Senses { detects_player: true, within_attack: true, ..calm() };
    let d = zombie_decide(AiPhase::Chase, close);
    assert_eq!(d.transition, AiTransition::ToAttack(AttackDelay::Ready));
    assert_eq!(d.motion, Motion::RunAtPlayer);
    let ready = Senses { timer_expired: true, ..close };
    let d = zombie_decide(AiPhase::Attack, ready);
    assert!(d.strike);
    assert_eq!(d.transition, AiTransition::Stay);
    assert_eq!(d.motion, Motion::Stand);
    let gone = Senses { lost_player: true, beyond_attack_hold: true, ..calm() };
    assert_eq!(zombie_decide(AiPhase::Chase, gone).transition, AiTransition::ToIdle(IdleTime::Long));
    assert_eq!(zombie_decide(AiPhase::Attack, gone).transition, AiTransition::ToChase);
}

#[test]
fn zombie_idles_and_wanders() {
    let done = Senses { timer_expired: true, ..calm() };
    assert_eq!(zombie_decide(AiPhase::Idle, done).transition, AiTransition::ToWander);
    assert_eq!(zombie_decide(AiPhase::Idle, calm()).transition, AiTransition::Stay);
    let there = Senses { reached_target: true, ..calm() };
    assert_eq!(zombie_decide(AiPhase::Wander, there).transition, AiTransition::ToIdle(IdleTime::Random));
    assert_eq!(zombie_decide(AiPhase::Flee, done).transition, AiTransition::ToIdle(IdleTime::Short));
}

#[test]
fn skeleton_keeps_its_distance() {
    let near = Senses { detects_player: true, within_attack: true, too_close: true, ..calm() };
    let d = skeleton_decide(AiPhase::Chase, near);
    assert_eq!(d.transition, AiTransition::ToFlee);
    assert_eq!(d.motion, Motion::Keep);
    assert_eq!(skeleton_decide(AiPhase::Attack, near).transition, AiTransition::ToFlee);
    let range = Senses { detects_player: true, within_attack: true, timer_expired: true, ..calm() };
    assert!(skeleton_decide(AiPhase::Attack, range).strike);
    assert_eq!(skeleton_decide(AiPhase::Flee, range).transition, AiTransition::ToAttack(AttackDelay::Half));
    let far = Senses { detects_player: true, timer_expired: true, ..calm() };
    assert_eq!(skeleton_decide(AiPhase::Flee, far).transition, AiTransition::ToChase);
    let d = skeleton_decide(AiPhase::Chase, Senses { lost_player: true, ..calm() });
    assert_eq!(d.transition, AiTransition::ToIdle(IdleTime::Long));
    assert_eq!(d.motion, Motion::RunAtPlayer);
}

#[test]
fn pigs_never_fight() {
    let all = Senses {
        detects_player: true,
        within_attack: true,
        beyond_attack_hold: true,
        lost_player: true,
        too_close: true,
        timer_expired: true,
        reached_target: true,
    };
    for p in [AiPhase::Idle, AiPhase::Wander, AiPhase::Chase, AiPhase::Attack, AiPhase::Flee] {
        for s in [calm(), all] {
            let d = pig_decide(p, s);
            assert!(!d.strike);
            assert_ne!(d.transition, AiTransition::ToChase);
            assert!(!matches!(d.transition, AiTransition::ToAttack(_)));
        }
    }
    assert_eq!(pig_decide(AiPhase::Chase, calm()).transition, AiTransition::ToIdle(IdleTime::Long));
    assert_eq!(decide(MobType::Pig, AiPhase::Idle, all), pig_decide(AiPhase::Idle, all));
    assert_eq!(decide(MobType::Zombie, AiPhase::Idle, all), zombie_decide(AiPhase::Idle, all));
}

#[test]
fn biome_kinds_are_distinct() {
    let all = [BiomeType::Plains, BiomeType::Forest, BiomeType::Desert, BiomeType::Tundra, BiomeType::Mountains];
    for (i, a) in all.iter().enumerate() {
        for (j, b) in all.iter().enumerate() {
            assert_eq!(i == j, a == b);
        }
    }
}
