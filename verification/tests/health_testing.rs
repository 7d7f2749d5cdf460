use svarog::gameplay::health::{Health, HealthAction, HealthActionResponse, HitDieStatus};
use svarog::gameplay::React;

#[test]
fn test_creating_hit_dice() {

    // 0

    let mut health = Health::default();
    let result = health.execute(HealthAction::Create(6));
    assert_eq!(result, vec![ HealthActionResponse::CreateResponse(0) ]);

    // [......] 6

    let result = health.execute(HealthAction::Create(2));
    assert_eq!(result, vec![ HealthActionResponse::CreateResponse(1) ]);

    // [......][..] 6+2
}

#[test]
fn test_chip_hit_dice() {

    // [......][......] 6+6

    let mut health = Health::default();
    let _ = health.execute(HealthAction::Create(6));
    let _ = health.execute(HealthAction::Create(6));
    let result = health.execute(HealthAction::Chip(4));
    
    // [......][......] 6+6    -CHIP 4->    [......][..xxxx] 6+2 / spill 0 damage

    assert_eq!(result, vec![ HealthActionResponse::ChipResponse(1, 0) ]);
}

#[test]
fn test_chip_spill_hit_dice() {
    
    // [......][......] 6+6

    let mut health = Health::default();
    let _ = health.execute(HealthAction::Create(6));
    let _ = health.execute(HealthAction::Create(6));
    let result = health.execute(HealthAction::Chip(10));
    
    // [......][......] 6+6   -CHIP 10->   [......][xxxxxx] / spill 4 damage   -CHIP 4->   [..xxxx][xxxxxx] 2+0 / spill 0 damage

    assert_eq!(result, vec![ HealthActionResponse::ChipResponse(1, 4), HealthActionResponse::ChipResponse(0, 0) ]);
}

#[test]
fn test_chip_spill_empty_hit_dice() {

    // [......] 6

    let mut health = Health::default();
    let _ = health.execute(HealthAction::Create(6));
    let result = health.execute(HealthAction::Chip(10));
    
    // [......] 6   -CHIP 10->    [xxxxxx] 0 / spill 4 damage   --no remaining dice, spill ends

    assert_eq!(result, vec![ HealthActionResponse::ChipResponse(0, 4) ]);
}

#[test]
fn test_temporary_hit_dice_shatter() {
    
    // [......] 6
    //  |
    //  Temporary

    let mut health = Health::default();
    let _ = health.execute(HealthAction::Create(6));
    let _ = health.execute(HealthAction::AddStatus(HitDieStatus::Temporary));
    assert!(health.hit_dice.last().unwrap().statuses.contains(&HitDieStatus::Temporary));
    
    // [......] 6   -CHIP 6->   [xxxxxx]    -TEMP->    gone!
    //  |                        |
    //  Temporary                Temporary, Empty

    let result = health.execute(HealthAction::Chip(6));
    assert_eq!(result, vec![ HealthActionResponse::ShatterResponse(0) ]);
    assert_eq!(0, health.hit_dice.len());
}

#[test]
fn test_fortify_hit_dice() {

    // [......] 6

    let mut health = Health::default();
    let _ = health.execute(HealthAction::Create(6));
    let result = health.execute(HealthAction::Fortify(1));
    assert_eq!(result, vec![ HealthActionResponse::FortifiedResponse(0, 1)]);

    // [......] 6
    //  |
    //  Fortified(1)
}

#[test]
fn test_fortify_stacks_hit_dice() {

    // [......] 6

    let mut health = Health::default();
    let _ = health.execute(HealthAction::Create(6));

    // [......] 6   -FORT 1->    [......] 6
    //                            |
    //                            Fortified(1)

    let result = health.execute(HealthAction::Fortify(1));
    assert_eq!(result, vec![ HealthActionResponse::FortifiedResponse(0, 1)]);

    // [......] 6   -FORT 3->    [......] 6
    //  |                         |
    //  Fortified 1               Fortified(4)

    let result = health.execute(HealthAction::Fortify(3));
    assert_eq!(result, vec![ HealthActionResponse::FortifiedResponse(0, 4)]);
}

#[test]
fn test_chip_fortified_hit_dice() {

    // [......][......] 6+6
    //          |
    //          Fortified(1)

    let mut health = Health::default();
    let _ = health.execute(HealthAction::Create(6));
    let _ = health.execute(HealthAction::Create(6));
    let _ = health.execute(HealthAction::Fortify(1));
    assert!(health.hit_dice.last().unwrap().statuses.iter().any(|s| matches!(s, HitDieStatus::Fortified(_))));

    // [......][......] 6+6   -CHIP 4->   [......][..xxxx] 6+2
    //          |                                  |
    //          Fortified(1)                       Fortified(1)

    let result = health.execute(HealthAction::Chip(4));
    assert_eq!(result, vec![ HealthActionResponse::ChipResponse(1, 0) ]);
    assert!(health.hit_dice.last().unwrap().statuses.iter().any(|s| matches!(s, HitDieStatus::Fortified(_))));

    // [......][..xxxx] 6+6   -CHIP 4->   [......][xxxxxx] / spill 2 damage   -FORT 1->    [......][......] 6+6 / no spill!
    //          |                                  |
    //          Fortified(1)                       Empty, Fortified(1)

    let result = health.execute(HealthAction::Chip(4));
    assert_eq!(result, vec![ HealthActionResponse::RecoveryResponse(1) ]);
    assert!(!health.hit_dice.last().unwrap().statuses.iter().any(|s| matches!(s, HitDieStatus::Fortified(_))));
}

#[test]
fn test_chip_spill_fortified_hit_dice() {
    
    // [......][......] 6+6
    //          |
    //          Fortified(1)

    let mut health = Health::default();
    let _ = health.execute(HealthAction::Create(6));
    let _ = health.execute(HealthAction::Create(6));
    let _ = health.execute(HealthAction::Fortify(1));
    assert!(health.hit_dice.last().unwrap().statuses.iter().any(|s| matches!(s, HitDieStatus::Fortified(_))));

    // [......][......] 6+6   -CHIP 10->   [......][xxxxxx] / spill 4 damage   -FORT 1->   [......][......] 6+6
    //          |                                   |
    //          Fortified(1)                        Empty, Fortified(1)

    let result = health.execute(HealthAction::Chip(10));
    assert_eq!(result, vec![ HealthActionResponse::RecoveryResponse(1) ]);
    assert!(!health.hit_dice.last().unwrap().statuses.iter().any(|s| matches!(s, HitDieStatus::Fortified(_))));

    // [......][......] 6+6   -CHIP 10->   [......][xxxxxx] / spill 4 damage   ->    [..xxxx][xxxxxx] 2+0
    //                                              |                                         |
    //                                              Empty                                     Empty

    let result = health.execute(HealthAction::Chip(10));
    assert_eq!(result, vec![ HealthActionResponse::ChipResponse(1, 4), HealthActionResponse::ChipResponse(0, 0) ]);
}

#[test]
fn test_chip_spill_deep_fortified_hit_dice() {
    let mut health = Health::default();
    
    //   [......][......] 6+6
    //    |
    //    Fortified(1)

    let _ = health.execute(HealthAction::Create(6));
    let _ = health.execute(HealthAction::Fortify(1));
    let _ = health.execute(HealthAction::Create(6));
    assert!(health.hit_dice.first().unwrap().statuses.iter().any(|s| matches!(s, HitDieStatus::Fortified(_))));
    assert!(!health.hit_dice.last().unwrap().statuses.iter().any(|s| matches!(s, HitDieStatus::Fortified(_))));

    // 13 damage is overwhelming, so let's go step by step as to how it will resolve:
    
    //   [......][......] 6+6   -CHIP 13->   [......][xxxxxx] / spill 7 damage   -CHIP 7->   [xxxxxx][xxxxxx] / spill 1 damage
    //    |                                   |       |                                       |       |
    //    Fortified(1)                        |       Empty                                   |       Empty
    //                                        |                                               |
    //                                        Fortified(1)                                    Fortified(1), Empty

    // now that all the damage is spilled as much as it could, Fortification starts its thing:
    
    //   [xxxxxx][xxxxxx]    -FORT 1->    [......][xxxxxx]
    //    |       |                                |
    //    |       Empty                            Empty
    //    |
    //    Fortified(1), Empty

    // you could imagine it shortened to:

    //       [......][......] 6+6    -->    [xxxxxx][xxxxxx]    -FORT 1->    [......][xxxxxx] 6
    //        |                              |       |                                |
    //        Fortified(1)                   |       Empty                            Empty
    //                                       |
    //                                       Empty, Fortified(1)

    
    let result = health.execute(HealthAction::Chip(13));
    assert_eq!(result, vec![ HealthActionResponse::ChipResponse(1, 7), HealthActionResponse::RecoveryResponse(0) ]);
    assert!(!health.hit_dice.first().unwrap().statuses.iter().any(|s| matches!(s, HitDieStatus::Fortified(_))));
    assert!(!health.hit_dice.last().unwrap().statuses.iter().any(|s| matches!(s, HitDieStatus::Fortified(_))));
    assert!(health.hit_dice.last().unwrap().statuses.iter().any(|s| matches!(s, HitDieStatus::Empty)));
}

#[test]
fn test_fortified_over_multiple_attacks() {
    
    // [......] 6
    //  |
    //  Fortified(3)

    let mut health = Health::default();
    let _ = health.execute(HealthAction::Create(6));
    let _ = health.execute(HealthAction::AddStatus(HitDieStatus::Fortified(3)));
    assert!(health.hit_dice.last().unwrap().statuses.contains(&HitDieStatus::Fortified(3)));

    // [......] 6   -CHIP 6->   [xxxxxx]    -FORT 3->    [......] 6
    //  |                        |                        |
    //  Fortified(3)             Fortified(3), Empty      Fortified(2) / change: 3 -> 2

    let result = health.execute(HealthAction::Chip(6));
    assert_eq!(result, vec![ HealthActionResponse::RecoveryResponse(0) ]);
    assert!(health.hit_dice.last().unwrap().statuses.contains(&HitDieStatus::Fortified(2)));

    // [......] 6   -CHIP 6->   [xxxxxx]    -FORT 2->    [......] 6
    //  |                        |                        |
    //  Fortified(2)             Fortified(2), Empty      Fortified(1) / change: 2 -> 1

    let result = health.execute(HealthAction::Chip(6));
    assert_eq!(result, vec![ HealthActionResponse::RecoveryResponse(0) ]);
    assert!(health.hit_dice.last().unwrap().statuses.contains(&HitDieStatus::Fortified(1)));


    // [......] 6   -CHIP 6->   [xxxxxx]    -FORT 1->    [......] 6
    //  |                        |
    //  Fortified(1)             Fortified(1), Empty

    let result = health.execute(HealthAction::Chip(6));
    assert_eq!(result, vec![ HealthActionResponse::RecoveryResponse(0) ]);
    assert!(health.hit_dice.last().unwrap().statuses.is_empty());

    // [......] 6   -CHIP 6->   [xxxxxx]
    //                           |
    //                           Empty

    let result = health.execute(HealthAction::Chip(6));
    assert_eq!(result, vec![ HealthActionResponse::ChipResponse(0, 0) ]);
    assert!(health.hit_dice.last().unwrap().statuses.contains(&HitDieStatus::Empty));
}

#[test]
fn test_fortified_activates_before_temporary() {
    
    // [......] 6
    //  |
    //  Temporary, Fortified(1)

    let mut health = Health::default();
    let _ = health.execute(HealthAction::Create(6));
    let _ = health.execute(HealthAction::AddStatus(HitDieStatus::Temporary));
    let _ = health.execute(HealthAction::AddStatus(HitDieStatus::Fortified(1)));
    assert!(health.hit_dice.last().unwrap().statuses.contains(&HitDieStatus::Temporary));
    assert!(health.hit_dice.last().unwrap().statuses.contains(&HitDieStatus::Fortified(1)));
    
    // [......] 6   -CHIP 6->   [xxxxxx]    -FORT 1->    [......]
    //  |                        |                        |
    //  Temporary, Fortified(1)  Temporary, Fortified(1)  Temporary

    let result = health.execute(HealthAction::Chip(6));
    assert_eq!(result, vec![ HealthActionResponse::RecoveryResponse(0) ]);
    assert_eq!(1, health.hit_dice.len());
    assert_eq!(6, *health.hit_dice.last().unwrap().value);
    assert!(!health.hit_dice.last().unwrap().statuses.contains(&HitDieStatus::Fortified(1)));

    // [......] 6   -CHIP 6->   [xxxxxx]    -TEMP->    gone!
    //  |                        |
    //  Temporary                Temporary, Empty

    let result = health.execute(HealthAction::Chip(6));
    assert_eq!(result, vec![ HealthActionResponse::ShatterResponse(0) ]);
    assert_eq!(0, health.hit_dice.len());
}

#[test]
fn test_drain_hit_dice() {
            
    //   [......] 6
    
    let mut health = Health::default();
    let _ = health.execute(HealthAction::Create(6));
   
    //   [......] 6    -DRAIN->   [xxxxxx] 0
    //                             |
    //                             Empty

    let result = health.execute(HealthAction::Drain);
    assert_eq!(result, vec![ HealthActionResponse::DrainResponse(0) ]);
    assert_eq!(*health.hit_dice.last().unwrap().value, 0);
    assert!(health.hit_dice.last().unwrap().statuses.contains(&HitDieStatus::Empty));
}

#[test]
fn test_guard_cancels_drain_hit_dice() {

    // [......] 6
    //  |
    //  Guarded

    let mut health = Health::default();
    let _ = health.execute(HealthAction::Create(6));
    let _ = health.execute(HealthAction::AddStatus(HitDieStatus::Guarded));

    // [......] 6   -DRAIN->   [......] 6 / no change!
    //  |                       |
    //  Guarded                 Guarded

    let result = health.execute(HealthAction::Drain);
    assert_eq!(result, vec![ HealthActionResponse::RecoveryResponse(0) ]);
}

#[test]
fn test_drain_fortified_hit_dice() {
    
    //   [......] 6

    let mut health = Health::default();
    let _ = health.execute(HealthAction::Create(6));
    let _ = health.execute(HealthAction::Fortify(1));

    //   [......] 6    -DRAIN->    [xxxxxx]    -FORT 1->    [......] 6
    //    |                         |
    //    Fortified(1)              Empty, Fortified(1)

    let result = health.execute(HealthAction::Drain);
    assert_eq!(result, vec![ HealthActionResponse::RecoveryResponse(0) ]);
    assert_eq!(*health.hit_dice.last().unwrap().value, 6);
    assert!(!health.hit_dice.last().unwrap().statuses.iter().any(|s| matches!(s, HitDieStatus::Fortified(_))));
}

#[test]
fn test_break_hit_dice() {
    
    //   [......][......] 6+6
    
    let mut health = Health::default();
    let _ = health.execute(HealthAction::Create(6));
    let _ = health.execute(HealthAction::Create(6));
    assert_eq!(health.hit_dice.len(), 2);

    //   [......][......] 6+6    -BREAK->   [......][......] 6+6
    //                                               |
    //                                               Void

    let result = health.execute(HealthAction::Break);
    assert_eq!(result, vec![ HealthActionResponse::BreakResponse(1) ]);

    //   [......][......] 6+6    -BREAK->   [......][......] 6+6
    //            |                          |       |
    //            Void                       Void    Void

    let result = health.execute(HealthAction::Break);
    assert_eq!(result, vec![ HealthActionResponse::BreakResponse(0) ]);
}

#[test]
fn test_guard_cancels_break_hit_dice() {

    // [......] 6
    //  |
    //  Guarded

    let mut health = Health::default();
    let _ = health.execute(HealthAction::Create(6));
    let _ = health.execute(HealthAction::AddStatus(HitDieStatus::Guarded));

    // [......] 6   -BREAK->   [......] 6
    //  |                       |
    //  Guarded                 Guarded / no change - not Void!

    let result = health.execute(HealthAction::Break);
    assert_eq!(result, vec![ HealthActionResponse::RecoveryResponse(0) ]);
}

#[test]
fn test_break_void_hit_dice_has_no_effect() {

    // [......] 6

    let mut health = Health::default();
    let _ = health.execute(HealthAction::Create(6));        
    assert_eq!(health.hit_dice.len(), 1);

    //   [......] 6    -BREAK->   [......] 6
    //                             |
    //                             Void

    let result = health.execute(HealthAction::Break);
    assert_eq!(result, vec![ HealthActionResponse::BreakResponse(0) ]);

    //   [......] 6    -BREAK->   [......] 6 / no change
    //    |                        |
    //    Void                     Void

    let result = health.execute(HealthAction::Break);
    assert_eq!(result, vec![ HealthActionResponse::NoResponse ]);
}

#[test]
fn test_mend_hit_dice() {

    // [......] 6
    //  |
    //  Void

    let mut health = Health::default();
    let _ = health.execute(HealthAction::Create(6));        
    assert_eq!(health.hit_dice.len(), 1);
    let _ = health.execute(HealthAction::Break);
    assert!(health.hit_dice.last().unwrap().statuses.contains(&HitDieStatus::Void));

    // [......] 6   -MEND->    [......] 6
    //  |
    //  Void
    
    let result = health.execute(HealthAction::Mend);
    assert_eq!(result, vec![ HealthActionResponse::MendResponse(0) ]);
    assert!(!health.hit_dice.last().unwrap().statuses.contains(&HitDieStatus::Void));
}

#[test]
fn test_shatter_hit_dice() {
    
    // [......] 6

    let mut health = Health::default();
    let _ = health.execute(HealthAction::Create(6));        
    assert_eq!(health.hit_dice.len(), 1);

    // [......] 6   -SHATTER->   gone!

    let result = health.execute(HealthAction::Shatter);
    assert_eq!(result, vec![ HealthActionResponse::ShatterResponse(0) ]);
    assert!(health.hit_dice.last().is_none());
}

#[test]
fn test_shatter_no_hit_dice() {

    //  nothing

    let mut health = Health::default();
    assert!(health.hit_dice.last().is_none());

    //  nothing   -SHATTER->   nothing

    let result = health.execute(HealthAction::Shatter);
    assert_eq!(result, vec![ HealthActionResponse::NoResponse ]);
    assert!(health.hit_dice.last().is_none());
}
