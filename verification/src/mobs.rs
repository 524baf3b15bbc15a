use vstd::prelude::*;

verus! {

/// Kinds of creature.
#[derive(Clone, Copy, PartialEq, Eq, Structural, Debug)]
pub enum MobType {
    Zombie,
    Skeleton,
    Pig,
}

/// The phase of a creature's behaviour.
#[derive(Clone, Copy, PartialEq, Eq, Structural, Debug)]
pub enum AiPhase {
    Idle,
    Wander,
    Chase,
    Attack,
    Flee,
}

/// What a creature perceives this frame, each fact already measured against
/// its kind's ranges.
#[derive(Clone, Copy, PartialEq, Eq, Structural, Debug)]
pub struct Senses {
    /// The player is within detection range.
    pub detects_player: bool,
    /// The player is within attack range.
    pub within_attack: bool,
    /// The player has moved past the range at which an attack is given up.
    pub beyond_attack_hold: bool,
    /// The player is beyond the range at which a chase is given up.
    pub lost_player: bool,
    /// The player is closer than the range at which the creature backs off.
    pub too_close: bool,
    /// The current phase's timer (or attack cooldown) has run out this frame.
    pub timer_expired: bool,
    /// The creature is within a block of its wander target.
    pub reached_target: bool,
}

/// How long a creature entering the idle phase stays idle.
#[derive(Clone, Copy, PartialEq, Eq, Structural, Debug)]
pub enum IdleTime {
    /// Two seconds.
    Short,
    /// Three seconds.
    Long,
    /// A random time within the creature's idle range.
    Random,
}

/// The cooldown a creature entering the attack phase starts with.
#[derive(Clone, Copy, PartialEq, Eq, Structural, Debug)]
pub enum AttackDelay {
    /// Ready to strike at once.
    Ready,
    /// Half a second.
    Half,
}

/// The phase change decided this frame.
#[derive(Clone, Copy, PartialEq, Eq, Structural, Debug)]
pub enum AiTransition {
    Stay,
    ToIdle(IdleTime),
    ToWander,
    ToChase,
    ToAttack(AttackDelay),
    ToFlee,
}

/// How the creature moves this frame.
#[derive(Clone, Copy, PartialEq, Eq, Structural, Debug)]
pub enum Motion {
    /// Horizontal velocity unchanged.
    Keep,
    /// Stand still.
    Stand,
    /// Walk towards the wander target.
    WalkToTarget,
    /// Run straight at the player.
    RunAtPlayer,
    /// Run along the flee direction.
    Flee,
}

/// A frame's decision: phase change, movement, and whether to attack (a
/// melee hit for zombies, an arrow for skeletons), which restarts the cooldown.
#[derive(Clone, Copy, PartialEq, Eq, Structural, Debug)]
pub struct AiDecision {
    pub transition: AiTransition,
    pub motion: Motion,
    pub strike: bool,
}

/// Shorthand for building a decision.
pub open spec fn dec(t: AiTransition, m: Motion, strike: bool) -> AiDecision {
    AiDecision { transition: t, motion: m, strike }
}

/// Zombie behaviour: idles or wanders until it detects the player, then
/// chases, attacks at close range with a cooldown, and gives up when the
/// player gets away.
pub open spec fn spec_zombie(phase: AiPhase, s: Senses) -> AiDecision {
    match phase {
        AiPhase::Idle => if s.detects_player {
            dec(AiTransition::ToChase, Motion::Stand, false)
        } else if s.timer_expired {
            dec(AiTransition::ToWander, Motion::Stand, false)
        } else {
            dec(AiTransition::Stay, Motion::Stand, false)
        },
        AiPhase::Wander => if s.detects_player {
            dec(AiTransition::ToChase, Motion::WalkToTarget, false)
        } else if s.timer_expired || s.reached_target {
            dec(AiTransition::ToIdle(IdleTime::Random), Motion::WalkToTarget, false)
        } else {
            dec(AiTransition::Stay, Motion::WalkToTarget, false)
        },
        AiPhase::Chase => if s.within_attack {
            dec(AiTransition::ToAttack(AttackDelay::Ready), Motion::RunAtPlayer, false)
        } else if s.lost_player {
            dec(AiTransition::ToIdle(IdleTime::Long), Motion::RunAtPlayer, false)
        } else {
            dec(AiTransition::Stay, Motion::RunAtPlayer, false)
        },
        AiPhase::Attack => if s.beyond_attack_hold {
            dec(AiTransition::ToChase, Motion::Stand, false)
        } else if s.timer_expired {
            dec(AiTransition::Stay, Motion::Stand, true)
        } else {
            dec(AiTransition::Stay, Motion::Stand, false)
        },
        AiPhase::Flee => if s.timer_expired {
            dec(AiTransition::ToIdle(IdleTime::Short), Motion::Flee, false)
        } else {
            dec(AiTransition::Stay, Motion::Flee, false)
        },
    }
}

/// Skeleton behaviour: like the zombie but it shoots from range, backs off
/// when the player comes too close, and after backing off attacks again if
/// the player is in range or resumes the chase.
pub open spec fn spec_skeleton(phase: AiPhase, s: Senses) -> AiDecision {
    match phase {
        AiPhase::Idle => if s.detects_player {
            dec(AiTransition::ToChase, Motion::Stand, false)
        } else if s.timer_expired {
            dec(AiTransition::ToWander, Motion::Stand, false)
        } else {
            dec(AiTransition::Stay, Motion::Stand, false)
        },
        AiPhase::Wander => if s.detects_player {
            dec(AiTransition::ToChase, Motion::WalkToTarget, false)
        } else if s.timer_expired || s.reached_target {
            dec(AiTransition::ToIdle(IdleTime::Random), Motion::WalkToTarget, false)
        } else {
            dec(AiTransition::Stay, Motion::WalkToTarget, false)
        },
        AiPhase::Chase => {
            let first = if s.too_close {
                dec(AiTransition::ToFlee, Motion::Keep, false)
            } else if s.within_attack {
                dec(AiTransition::ToAttack(AttackDelay::Ready), Motion::Keep, false)
            } else {
                dec(AiTransition::Stay, Motion::RunAtPlayer, false)
            };
            if s.lost_player {
                dec(AiTransition::ToIdle(IdleTime::Long), first.motion, false)
            } else {
                first
            }
        },
        AiPhase::Attack => if s.too_close {
            dec(AiTransition::ToFlee, Motion::Stand, false)
        } else if s.beyond_attack_hold {
            dec(AiTransition::ToChase, Motion::Stand, false)
        } else if s.timer_expired {
            dec(AiTransition::Stay, Motion::Stand, true)
        } else {
            dec(AiTransition::Stay, Motion::Stand, false)
        },
        AiPhase::Flee => if s.timer_expired {
            if s.within_attack {
                dec(AiTransition::ToAttack(AttackDelay::Half), Motion::Flee, false)
            } else {
                dec(AiTransition::ToChase, Motion::Flee, false)
            }
        } else {
            dec(AiTransition::Stay, Motion::Flee, false)
        },
    }
}

/// Pig behaviour: alternates between idling and wandering, runs when hurt,
/// and never chases or attacks.
pub open spec fn spec_pig(phase: AiPhase, s: Senses) -> AiDecision {
    match phase {
        AiPhase::Idle => if s.timer_expired {
            dec(AiTransition::ToWander, Motion::Stand, false)
        } else {
            dec(AiTransition::Stay, Motion::Stand, false)
        },
        AiPhase::Wander => if s.timer_expired || s.reached_target {
            dec(AiTransition::ToIdle(IdleTime::Random), Motion::WalkToTarget, false)
        } else {
            dec(AiTransition::Stay, Motion::WalkToTarget, false)
        },
        AiPhase::Flee => if s.timer_expired {
            dec(AiTransition::ToIdle(IdleTime::Short), Motion::Flee, false)
        } else {
            dec(AiTransition::Stay, Motion::Flee, false)
        },
        _ => dec(AiTransition::ToIdle(IdleTime::Long), Motion::Keep, false),
    }
}

/// The decision for a creature of kind `kind`.
pub open spec fn spec_decide(kind: MobType, phase: AiPhase, s: Senses) -> AiDecision {
    match kind {
        MobType::Zombie => spec_zombie(phase, s),
        MobType::Skeleton => spec_skeleton(phase, s),
        MobType::Pig => spec_pig(phase, s),
    }
}

fn mk(t: AiTransition, m: Motion, strike: bool) -> (d: AiDecision)
    ensures
        d == dec(t, m, strike),
{
    AiDecision { transition: t, motion: m, strike }
}

/// One frame of zombie behaviour.
pub fn zombie_decide(phase: AiPhase, s: Senses) -> (d: AiDecision)
    ensures
        d == spec_zombie(phase, s),
{
    match phase {
        AiPhase::Idle => if s.detects_player {
            mk(AiTransition::ToChase, Motion::Stand, false)
        } else if s.timer_expired {
            mk(AiTransition::ToWander, Motion::Stand, false)
        } else {
            mk(AiTransition::Stay, Motion::Stand, false)
        },
        AiPhase::Wander => if s.detects_player {
            mk(AiTransition::ToChase, Motion::WalkToTarget, false)
        } else if s.timer_expired || s.reached_target {
            mk(AiTransition::ToIdle(IdleTime::Random), Motion::WalkToTarget, false)
        } else {
            mk(AiTransition::Stay, Motion::WalkToTarget, false)
        },
        AiPhase::Chase => if s.within_attack {
            mk(AiTransition::ToAttack(AttackDelay::Ready), Motion::RunAtPlayer, false)
        } else if s.lost_player {
            mk(AiTransition::ToIdle(IdleTime::Long), Motion::RunAtPlayer, false)
        } else {
            mk(AiTransition::Stay, Motion::RunAtPlayer, false)
        },
        AiPhase::Attack => if s.beyond_attack_hold {
            mk(AiTransition::ToChase, Motion::Stand, false)
        } else if s.timer_expired {
            mk(AiTransition::Stay, Motion::Stand, true)
        } else {
            mk(AiTransition::Stay, Motion::Stand, false)
        },
        AiPhase::Flee => if s.timer_expired {
            mk(AiTransition::ToIdle(IdleTime::Short), Motion::Flee, false)
        } else {
            mk(AiTransition::Stay, Motion::Flee, false)
        },
    }
}

/// One frame of skeleton behaviour.
pub fn skeleton_decide(phase: AiPhase, s: Senses) -> (d: AiDecision)
    ensures
        d == spec_skeleton(phase, s),
{
    match phase {
        AiPhase::Idle => if s.detects_player {
            mk(AiTransition::ToChase, Motion::Stand, false)
        } else if s.timer_expired {
            mk(AiTransition::ToWander, Motion::Stand, false)
        } else {
            mk(AiTransition::Stay, Motion::Stand, false)
        },
        AiPhase::Wander => if s.detects_player {
            mk(AiTransition::ToChase, Motion::WalkToTarget, false)
        } else if s.timer_expired || s.reached_target {
            mk(AiTransition::ToIdle(IdleTime::Random), Motion::WalkToTarget, false)
        } else {
            mk(AiTransition::Stay, Motion::WalkToTarget, false)
        },
        AiPhase::Chase => {
            // Back off if the player is too close, shoot from range,
            // otherwise close in.
            let first = if s.too_close {
                mk(AiTransition::ToFlee, Motion::Keep, false)
            } else if s.within_attack {
                mk(AiTransition::ToAttack(AttackDelay::Ready), Motion::Keep, false)
            } else {
                mk(AiTransition::Stay, Motion::RunAtPlayer, false)
            };
            if s.lost_player {
                mk(AiTransition::ToIdle(IdleTime::Long), first.motion, false)
            } else {
                first
            }
        },
        AiPhase::Attack => if s.too_close {
            mk(AiTransition::ToFlee, Motion::Stand, false)
        } else if s.beyond_attack_hold {
            mk(AiTransition::ToChase, Motion::Stand, false)
        } else if s.timer_expired {
            mk(AiTransition::Stay, Motion::Stand, true)
        } else {
            mk(AiTransition::Stay, Motion::Stand, false)
        },
        AiPhase::Flee => if s.timer_expired {
            if s.within_attack {
                mk(AiTransition::ToAttack(AttackDelay::Half), Motion::Flee, false)
            } else {
                mk(AiTransition::ToChase, Motion::Flee, false)
            }
        } else {
            mk(AiTransition::Stay, Motion::Flee, false)
        },
    }
}

/// One frame of pig behaviour.
pub fn pig_decide(phase: AiPhase, s: Senses) -> (d: AiDecision)
    ensures
        d == spec_pig(phase, s),
{
    match phase {
        AiPhase::Idle => if s.timer_expired {
            mk(AiTransition::ToWander, Motion::Stand, false)
        } else {
            mk(AiTransition::Stay, Motion::Stand, false)
        },
        AiPhase::Wander => if s.timer_expired || s.reached_target {
            mk(AiTransition::ToIdle(IdleTime::Random), Motion::WalkToTarget, false)
        } else {
            mk(AiTransition::Stay, Motion::WalkToTarget, false)
        },
        AiPhase::Flee => if s.timer_expired {
            mk(AiTransition::ToIdle(IdleTime::Short), Motion::Flee, false)
        } else {
            mk(AiTransition::Stay, Motion::Flee, false)
        },
        _ => mk(AiTransition::ToIdle(IdleTime::Long), Motion::Keep, false),
    }
}

/// One frame of behaviour for a creature of any kind.
pub fn decide(kind: MobType, phase: AiPhase, s: Senses) -> (d: AiDecision)
    ensures
        d == spec_decide(kind, phase, s),
{
    match kind {
        MobType::Zombie => zombie_decide(phase, s),
        MobType::Skeleton => skeleton_decide(phase, s),
        MobType::Pig => pig_decide(phase, s),
    }
}

/// The phase a creature is in after a decision.
pub open spec fn phase_after(phase: AiPhase, t: AiTransition) -> AiPhase {
    match t {
        AiTransition::Stay => phase,
        AiTransition::ToIdle(_) => AiPhase::Idle,
        AiTransition::ToWander => AiPhase::Wander,
        AiTransition::ToChase => AiPhase::Chase,
        AiTransition::ToAttack(_) => AiPhase::Attack,
        AiTransition::ToFlee => AiPhase::Flee,
    }
}

/// Creatures strike only while attacking, and only when the cooldown has run
/// out and the player is still within reach.
pub proof fn lemma_strike_only_when_ready(kind: MobType, phase: AiPhase, s: Senses)
    ensures
        spec_decide(kind, phase, s).strike ==> phase == AiPhase::Attack && s.timer_expired && !s.beyond_attack_hold
            && kind != MobType::Pig,
{
}

/// Pigs never chase or attack: from any phase they end up idle, wandering or fleeing.
pub proof fn lemma_pig_is_passive(phase: AiPhase, s: Senses)
    ensures
        phase_after(phase, spec_pig(phase, s).transition) != AiPhase::Chase,
        phase_after(phase, spec_pig(phase, s).transition) != AiPhase::Attack,
        !spec_pig(phase, s).strike,
{
}

/// A hostile creature that is idling or wandering switches to a chase as
/// soon as it detects the player.
pub proof fn lemma_hostile_detects(kind: MobType, phase: AiPhase, s: Senses)
    requires
        kind != MobType::Pig,
        phase == AiPhase::Idle || phase == AiPhase::Wander,
        s.detects_player,
    ensures
        spec_decide(kind, phase, s).transition == AiTransition::ToChase,
{
}

/// A chasing hostile creature that has lost the player goes idle.
pub proof fn lemma_chase_gives_up(kind: MobType, s: Senses)
    requires
        kind != MobType::Pig,
        s.lost_player,
        !s.within_attack,
    ensures
        spec_decide(kind, AiPhase::Chase, s).transition == AiTransition::ToIdle(IdleTime::Long),
{
}

/// Whether a creature of kind `kind` takes notice of the player this frame:
/// hostile creatures do when they detect the player, pigs never do.
pub open spec fn notices_player(kind: MobType, s: Senses) -> bool {
    kind != MobType::Pig && s.detects_player
}

/// An idle creature stands still; once its idle time runs out it starts to
/// wander, unless it notices the player, and until then it stays idle.
pub proof fn lemma_idle_behaviour(kind: MobType, s: Senses)
    ensures
        spec_decide(kind, AiPhase::Idle, s).motion == Motion::Stand,
        !spec_decide(kind, AiPhase::Idle, s).strike,
        s.timer_expired && !notices_player(kind, s)
            ==> spec_decide(kind, AiPhase::Idle, s).transition == AiTransition::ToWander,
        !s.timer_expired && !notices_player(kind, s)
            ==> spec_decide(kind, AiPhase::Idle, s).transition == AiTransition::Stay,
{
}

/// A wandering creature walks towards its target; when its wander time runs
/// out or it arrives, it goes idle for a random time, unless it notices the
/// player; otherwise it keeps wandering.
pub proof fn lemma_wander_behaviour(kind: MobType, s: Senses)
    ensures
        spec_decide(kind, AiPhase::Wander, s).motion == Motion::WalkToTarget,
        !spec_decide(kind, AiPhase::Wander, s).strike,
        (s.timer_expired || s.reached_target) && !notices_player(kind, s)
            ==> spec_decide(kind, AiPhase::Wander, s).transition == AiTransition::ToIdle(IdleTime::Random),
        !(s.timer_expired || s.reached_target) && !notices_player(kind, s)
            ==> spec_decide(kind, AiPhase::Wander, s).transition == AiTransition::Stay,
{
}

/// A fleeing creature runs along its flee direction and keeps fleeing until
/// its flee time runs out; then it stops fleeing.
pub proof fn lemma_flee_behaviour(kind: MobType, s: Senses)
    ensures
        spec_decide(kind, AiPhase::Flee, s).motion == Motion::Flee,
        !spec_decide(kind, AiPhase::Flee, s).strike,
        s.timer_expired <==> spec_decide(kind, AiPhase::Flee, s).transition != AiTransition::Stay,
        s.timer_expired ==> phase_after(AiPhase::Flee, spec_decide(kind, AiPhase::Flee, s).transition) != AiPhase::Flee,
{
}

/// A hostile creature strikes whenever it is attacking, its cooldown has run
/// out, the player is still within reach, and (for a skeleton) the player is
/// not so close that it backs off.
pub proof fn lemma_strike_when_ready(kind: MobType, s: Senses)
    requires
        kind != MobType::Pig,
        s.timer_expired,
        !s.beyond_attack_hold,
        kind == MobType::Skeleton ==> !s.too_close,
    ensures
        spec_decide(kind, AiPhase::Attack, s).strike,
        spec_decide(kind, AiPhase::Attack, s).transition == AiTransition::Stay,
{
}

/// A chasing hostile creature that has the player within attack range starts
/// attacking at once (a skeleton only if the player is not too close).
pub proof fn lemma_chase_to_attack(kind: MobType, s: Senses)
    requires
        kind != MobType::Pig,
        s.within_attack,
        !s.lost_player,
        kind == MobType::Skeleton ==> !s.too_close,
    ensures
        spec_decide(kind, AiPhase::Chase, s).transition == AiTransition::ToAttack(AttackDelay::Ready),
{
}

} // verus!
