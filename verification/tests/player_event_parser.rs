use glogger_core::player_event_parser::PlayerEventParser;
use glogger_core::player_events::{
    ActivityContext, ActivitySource, AttributionConfidence, DeleteContext, ItemProvenance,
    PlayerEvent,
};
use glogger_core::log_events::parse_equipment_slots;

#[test]
fn test_parse_add_item() {
    let mut parser = PlayerEventParser::new();
    let events = parser.process_line(
        r#"[16:17:48] LocalPlayer: ProcessAddItem(Malachite(115244857), -1, True)"#,
    );
    assert_eq!(events.len(), 1);
    match &events[0] {
        PlayerEvent::ItemAdded {
            item_name,
            instance_id,
            slot_index,
            is_new,
            ..
        } => {
            assert_eq!(item_name, "Malachite");
            assert_eq!(*instance_id, 115244857);
            assert_eq!(*slot_index, -1);
            assert!(*is_new);
        }
        _ => panic!("Expected ItemAdded"),
    }
}

#[test]
fn test_parse_add_item_login_load() {
    let mut parser = PlayerEventParser::new();
    let events = parser.process_line(
        r#"[16:00:00] LocalPlayer: ProcessAddItem(MetalSlab2(136937342), 5, False)"#,
    );
    assert_eq!(events.len(), 1);
    match &events[0] {
        PlayerEvent::ItemAdded {
            item_name,
            is_new,
            slot_index,
            ..
        } => {
            assert_eq!(item_name, "MetalSlab2");
            assert!(!is_new);
            assert_eq!(*slot_index, 5);
        }
        _ => panic!("Expected ItemAdded"),
    }
}

#[test]
fn test_parse_update_item_code_with_delta() {
    let mut parser = PlayerEventParser::new();

    // First register the item
    parser.process_line(
        r#"[16:00:00] LocalPlayer: ProcessAddItem(MetalSlab3(136937342), 5, False)"#,
    );
    // Set initial stack size
    parser.seed_stack_size(136937342, 20);

    let events = parser.process_line(
        r#"[16:17:48] LocalPlayer: ProcessUpdateItemCode(136937342, 1642723, True)"#,
    );
    assert_eq!(events.len(), 1);
    match &events[0] {
        PlayerEvent::ItemStackChanged {
            instance_id,
            item_name,
            item_type_id,
            old_stack_size,
            new_stack_size,
            delta,
            from_server,
            ..
        } => {
            assert_eq!(*instance_id, 136937342);
            assert_eq!(item_name.as_deref(), Some("MetalSlab3"));
            assert_eq!(*item_type_id, 4323); // 1642723 & 0xFFFF
            assert_eq!(*old_stack_size, 20);
            assert_eq!(*new_stack_size, 26); // (1642723 >> 16) + 1; encoding is 0-based
            assert_eq!(*delta, 6);
            assert!(*from_server);
        }
        _ => panic!("Expected ItemStackChanged"),
    }
}

#[test]
fn test_encoded_value_decoding() {
    // Encoding is 0-based: actual_stack = (encoded >> 16) + 1
    let encoded: u32 = 1642723;
    assert_eq!((encoded >> 16) + 1, 26); // actual stack size
    assert_eq!(encoded & 0xFFFF, 4323); // item type ID
}

#[test]
fn test_delete_then_storage_transfer() {
    let mut parser = PlayerEventParser::new();

    // Register item first
    parser.process_line(
        r#"[13:27:07] LocalPlayer: ProcessAddItem(MapleWood(136093889), 10, False)"#,
    );

    // Delete item — should be buffered
    let events = parser.process_line(r#"[13:27:07] LocalPlayer: ProcessDeleteItem(136093889)"#);
    assert!(events.is_empty(), "Delete should be buffered");

    // Storage deposit — should resolve the pending delete
    let events = parser.process_line(
        r#"[13:27:07] LocalPlayer: ProcessAddToStorageVault(14804, -1, 40, MapleWood(136093889))"#
    );

    // Should have: ItemDeleted(StorageTransfer) + StorageDeposit
    assert_eq!(events.len(), 2);
    match &events[0] {
        PlayerEvent::ItemDeleted {
            instance_id,
            context,
            item_name,
            ..
        } => {
            assert_eq!(*instance_id, 136093889);
            assert_eq!(*context, DeleteContext::StorageTransfer);
            assert_eq!(item_name.as_deref(), Some("MapleWood"));
        }
        _ => panic!("Expected ItemDeleted with StorageTransfer"),
    }
    match &events[1] {
        PlayerEvent::StorageDeposit {
            item_name,
            instance_id,
            ..
        } => {
            assert_eq!(item_name, "MapleWood");
            assert_eq!(*instance_id, 136093889);
        }
        _ => panic!("Expected StorageDeposit"),
    }
}

#[test]
fn test_delete_then_vendor_sale() {
    let mut parser = PlayerEventParser::new();

    parser.process_line(
        r#"[16:32:25] LocalPlayer: ProcessAddItem(AmuletOfCrushingMitigation5(115259296), 3, False)"#
    );

    let events = parser.process_line(r#"[16:32:25] LocalPlayer: ProcessDeleteItem(115259296)"#);
    assert!(events.is_empty());

    let events = parser.process_line(
        r#"[16:32:25] LocalPlayer: ProcessVendorAddItem(120, AmuletOfCrushingMitigation5(115259296), False)"#
    );
    assert_eq!(events.len(), 2);
    match &events[0] {
        PlayerEvent::ItemDeleted { context, .. } => {
            assert_eq!(*context, DeleteContext::VendorSale);
        }
        _ => panic!("Expected ItemDeleted with VendorSale"),
    }
    match &events[1] {
        PlayerEvent::VendorSold {
            price,
            item_name,
            is_buyback,
            ..
        } => {
            assert_eq!(*price, 120);
            assert_eq!(item_name, "AmuletOfCrushingMitigation5");
            assert!(!is_buyback);
        }
        _ => panic!("Expected VendorSold"),
    }
}

#[test]
fn test_delete_standalone_flushed_as_unknown() {
    let mut parser = PlayerEventParser::new();

    parser.process_line(
        r#"[16:33:03] LocalPlayer: ProcessAddItem(SomeItem(114961794), 1, False)"#,
    );

    // Delete
    let events = parser.process_line(r#"[16:33:03] LocalPlayer: ProcessDeleteItem(114961794)"#);
    assert!(events.is_empty());

    // Unrelated line flushes pending
    let events = parser
        .process_line(r#"[16:33:04] entity_159956: OnAttackHitMe(Fiery Bite). Evaded = False"#);
    assert_eq!(events.len(), 1);
    match &events[0] {
        PlayerEvent::ItemDeleted {
            instance_id,
            context,
            item_name,
            ..
        } => {
            assert_eq!(*instance_id, 114961794);
            assert_eq!(*context, DeleteContext::Unknown);
            assert_eq!(item_name.as_deref(), Some("SomeItem"));
        }
        _ => panic!("Expected ItemDeleted with Unknown"),
    }
}

#[test]
fn test_parse_load_skills() {
    let mut parser = PlayerEventParser::new();
    let line = r#"[16:00:53] LocalPlayer: ProcessLoadSkills({type=Hammer,raw=70,bonus=5,xp=0,tnl=1153715,max=70},{type=Mentalism,raw=76,bonus=0,xp=2353127,tnl=2502977,max=80},{type=Gourmand,raw=49,bonus=0,xp=835,tnl=2500,max=100})"#;
    let events = parser.process_line(line);

    assert_eq!(events.len(), 1);
    match &events[0] {
        PlayerEvent::SkillsLoaded { skills, .. } => {
            assert_eq!(skills.len(), 3);
            assert_eq!(skills[0].skill_type, "Hammer");
            assert_eq!(skills[0].raw, 70);
            assert_eq!(skills[0].bonus, 5);
            assert_eq!(skills[0].tnl, 1153715);
            assert_eq!(skills[1].skill_type, "Mentalism");
            assert_eq!(skills[1].xp, 2353127);
            assert_eq!(skills[2].skill_type, "Gourmand");
            assert_eq!(skills[2].max, 100);
        }
        _ => panic!("Expected SkillsLoaded"),
    }
}

#[test]
fn test_parse_load_skills_negative_tnl() {
    let mut parser = PlayerEventParser::new();
    let line = r#"[16:00:53] LocalPlayer: ProcessLoadSkills({type=Compassion,raw=50,bonus=0,xp=0,tnl=-1,max=50})"#;
    let events = parser.process_line(line);

    assert_eq!(events.len(), 1);
    match &events[0] {
        PlayerEvent::SkillsLoaded { skills, .. } => {
            assert_eq!(skills.len(), 1);
            assert_eq!(skills[0].tnl, -1);
        }
        _ => panic!("Expected SkillsLoaded"),
    }
}

#[test]
fn test_parse_start_interaction() {
    let mut parser = PlayerEventParser::new();
    let events = parser.process_line(
        r#"[13:26:55] LocalPlayer: ProcessStartInteraction(14804, 7, 1200, True, "NPC_Qatik")"#,
    );
    assert_eq!(events.len(), 1);
    match &events[0] {
        PlayerEvent::InteractionStarted {
            entity_id,
            interaction_type,
            npc_name,
            ..
        } => {
            assert_eq!(*entity_id, 14804);
            assert_eq!(*interaction_type, 7);
            assert_eq!(npc_name, "NPC_Qatik");
        }
        _ => panic!("Expected InteractionStarted"),
    }
}

#[test]
fn test_parse_delta_favor() {
    let mut parser = PlayerEventParser::new();
    let events = parser.process_line(
        r#"[16:33:03] LocalPlayer: ProcessDeltaFavor(9618, "NPC_Kalaba", 2.8476, True)"#,
    );
    assert_eq!(events.len(), 1);
    match &events[0] {
        PlayerEvent::FavorChanged {
            npc_id,
            npc_name,
            delta,
            is_gift,
            ..
        } => {
            assert_eq!(*npc_id, 9618);
            assert_eq!(npc_name, "NPC_Kalaba");
            assert!((delta.parse::<f32>().unwrap() - 2.8476).abs() < 0.001);
            assert!(*is_gift);
        }
        _ => panic!("Expected FavorChanged"),
    }
}

#[test]
fn test_parse_screen_text() {
    let mut parser = PlayerEventParser::new();
    let events = parser.process_line(
        r#"[17:37:01] LocalPlayer: ProcessScreenText(ImportantInfo, "The treasure is 342 meters from here.")"#
    );
    assert_eq!(events.len(), 1);
    match &events[0] {
        PlayerEvent::ScreenText {
            category, message, ..
        } => {
            assert_eq!(category, "ImportantInfo");
            assert_eq!(message, "The treasure is 342 meters from here.");
        }
        _ => panic!("Expected ScreenText"),
    }
}

#[test]
fn test_parse_remove_from_storage() {
    let mut parser = PlayerEventParser::new();
    let events = parser.process_line(
        r#"[13:28:48] LocalPlayer: ProcessRemoveFromStorageVault(14804, -1, 132702881, 11)"#,
    );
    assert_eq!(events.len(), 1);
    match &events[0] {
        PlayerEvent::StorageWithdrawal {
            npc_id,
            instance_id,
            quantity,
            ..
        } => {
            assert_eq!(*npc_id, 14804);
            assert_eq!(*instance_id, 132702881);
            assert_eq!(*quantity, 11);
        }
        _ => panic!("Expected StorageWithdrawal"),
    }
}

#[test]
fn test_parse_vendor_update_item() {
    let mut parser = PlayerEventParser::new();
    let events = parser.process_line(
        r#"[16:32:27] LocalPlayer: ProcessVendorUpdateItem(115249145, 200909, 7)"#,
    );
    assert_eq!(events.len(), 1);
    match &events[0] {
        PlayerEvent::VendorStackUpdated {
            instance_id,
            item_type_id,
            new_stack_size,
            price,
            ..
        } => {
            assert_eq!(*instance_id, 115249145);
            // (200909 >> 16) + 1 = 4, 200909 & 0xFFFF = 4301
            assert_eq!(*new_stack_size, 4);
            assert_eq!(*item_type_id, 4301);
            assert_eq!(*price, 7);
        }
        _ => panic!("Expected VendorStackUpdated"),
    }
}

#[test]
fn test_parse_book() {
    let mut parser = PlayerEventParser::new();
    let events = parser.process_line(
        r#"[13:26:04] LocalPlayer: ProcessBook("Yesterday's Shop Logs", "Toncom bought Guava x5", "PlayerShopLog", "", "", False, False, False, False, False, "")"#
    );
    assert_eq!(events.len(), 1);
    match &events[0] {
        PlayerEvent::BookOpened {
            title,
            content,
            book_type,
            ..
        } => {
            assert_eq!(title, "Yesterday's Shop Logs");
            assert_eq!(content, "Toncom bought Guava x5");
            assert_eq!(book_type, "PlayerShopLog");
        }
        _ => panic!("Expected BookOpened"),
    }
}

#[test]
fn test_non_player_line_ignored() {
    let mut parser = PlayerEventParser::new();
    let events = parser.process_line(
        r#"[00:15:46] entity_192620: OnAttackHitMe(Spider Bite). Evaded = False"#,
    );
    assert!(events.is_empty());
}

#[test]
fn test_flush_all_pending() {
    let mut parser = PlayerEventParser::new();
    parser.process_line(r#"[16:00:00] LocalPlayer: ProcessAddItem(TestItem(12345), 1, False)"#);
    parser.process_line(r#"[16:33:03] LocalPlayer: ProcessDeleteItem(12345)"#);
    // No more lines — flush manually
    let events = parser.flush_all_pending();
    assert_eq!(events.len(), 1);
    match &events[0] {
        PlayerEvent::ItemDeleted {
            instance_id,
            context,
            ..
        } => {
            assert_eq!(*instance_id, 12345);
            assert_eq!(*context, DeleteContext::Unknown);
        }
        _ => panic!("Expected ItemDeleted"),
    }
}

#[test]
fn test_delete_then_vendor_update_item() {
    let mut parser = PlayerEventParser::new();

    parser.process_line(
        r#"[16:32:27] LocalPlayer: ProcessAddItem(SomeStackable(115271948), 1, False)"#,
    );

    // Delete
    let events = parser.process_line(r#"[16:32:27] LocalPlayer: ProcessDeleteItem(115271948)"#);
    assert!(events.is_empty());

    // VendorUpdateItem (selling stackable vendor already has)
    let events = parser.process_line(
        r#"[16:32:27] LocalPlayer: ProcessVendorUpdateItem(115249145, 200909, 7)"#,
    );
    assert_eq!(events.len(), 2);
    match &events[0] {
        PlayerEvent::ItemDeleted { context, .. } => {
            assert_eq!(*context, DeleteContext::VendorSale);
        }
        _ => panic!("Expected ItemDeleted with VendorSale"),
    }
}

#[test]
fn test_parse_delay_loop_surveying() {
    let mut parser = PlayerEventParser::new();
    let events = parser.process_line(
        r#"[00:08:36] LocalPlayer: ProcessDoDelayLoop(5, UseTeleportationCircle, "Surveying", 5305, AbortIfAttacked)"#
    );
    assert_eq!(events.len(), 1);
    match &events[0] {
        PlayerEvent::DelayLoopStarted {
            duration,
            action_type,
            label,
            entity_id,
            abort_condition,
            ..
        } => {
            assert!((duration.parse::<f32>().unwrap() - 5.0).abs() < 0.01);
            assert_eq!(action_type, "UseTeleportationCircle");
            assert_eq!(label, "Surveying");
            assert_eq!(*entity_id, 5305);
            assert_eq!(abort_condition, "AbortIfAttacked");
        }
        _ => panic!("Expected DelayLoopStarted"),
    }
}

#[test]
fn test_parse_delay_loop_using_survey() {
    let mut parser = PlayerEventParser::new();
    let events = parser.process_line(
        r#"[16:17:47] LocalPlayer: ProcessDoDelayLoop(0.5, Unset, "Using Eltibule Green Mineral Survey", 5305, AbortIfAttacked)"#
    );
    assert_eq!(events.len(), 1);
    match &events[0] {
        PlayerEvent::DelayLoopStarted {
            duration,
            action_type,
            label,
            ..
        } => {
            assert!((duration.parse::<f32>().unwrap() - 0.5).abs() < 0.01);
            assert_eq!(action_type, "Unset");
            assert_eq!(label, "Using Eltibule Green Mineral Survey");
        }
        _ => panic!("Expected DelayLoopStarted"),
    }
}

#[test]
fn test_parse_delay_loop_eating() {
    let mut parser = PlayerEventParser::new();
    let events = parser.process_line(
        r#"[00:08:00] LocalPlayer: ProcessDoDelayLoop(1.5, Eat, "Using Gobbledygook", 6223, AbortIfAttacked)"#
    );
    assert_eq!(events.len(), 1);
    match &events[0] {
        PlayerEvent::DelayLoopStarted {
            action_type,
            label,
            entity_id,
            ..
        } => {
            assert_eq!(action_type, "Eat");
            assert_eq!(label, "Using Gobbledygook");
            assert_eq!(*entity_id, 6223);
        }
        _ => panic!("Expected DelayLoopStarted"),
    }
}

#[test]
fn test_instance_registry_baseline_no_event() {
    let mut parser = PlayerEventParser::new();
    // Existing item loaded at session start (is_new=False)
    parser.process_line(
        r#"[16:00:00] LocalPlayer: ProcessAddItem(MetalSlab2(136937342), 5, False)"#,
    );

    // First UpdateItemCode establishes baseline — no event emitted
    let events = parser.process_line(
        r#"[16:00:01] LocalPlayer: ProcessUpdateItemCode(136937342, 65536, True)"#,
    );
    assert!(events.is_empty(), "First UpdateItemCode for existing item should not emit an event");

    // Subsequent UpdateItemCode DOES emit a change event
    let events = parser.process_line(
        r#"[16:00:02] LocalPlayer: ProcessUpdateItemCode(136937342, 196608, True)"#,
    );
    assert_eq!(events.len(), 1);
    match &events[0] {
        PlayerEvent::ItemStackChanged { item_name, old_stack_size, new_stack_size, delta, .. } => {
            assert_eq!(item_name.as_deref(), Some("MetalSlab2"));
            assert_eq!(*old_stack_size, 2); // (65536 >> 16) + 1
            assert_eq!(*new_stack_size, 4); // (196608 >> 16) + 1
            assert_eq!(*delta, 2);
        }
        _ => panic!("Expected ItemStackChanged"),
    }
}

#[test]
fn test_new_item_seeds_stack_and_emits_change() {
    let mut parser = PlayerEventParser::new();
    // Genuinely new item (is_new=True, slot=-1) — seeds stack_size=1
    parser.process_line(
        r#"[16:00:00] LocalPlayer: ProcessAddItem(RoyalJelly(12345678), -1, True)"#,
    );

    // UpdateItemCode should emit change with delta = new - 1
    let events = parser.process_line(
        r#"[16:00:01] LocalPlayer: ProcessUpdateItemCode(12345678, 327697, True)"#,
    );
    // (327697 >> 16) + 1 = 6, 327697 & 0xFFFF = 17
    assert_eq!(events.len(), 1);
    match &events[0] {
        PlayerEvent::ItemStackChanged { item_name, old_stack_size, new_stack_size, delta, .. } => {
            assert_eq!(item_name.as_deref(), Some("RoyalJelly"));
            assert_eq!(*old_stack_size, 1); // seeded from ProcessAddItem(is_new=True)
            assert_eq!(*new_stack_size, 6); // (327697 >> 16) + 1
            assert_eq!(*delta, 5);
        }
        _ => panic!("Expected ItemStackChanged"),
    }
}

#[test]
fn test_storage_withdrawal_seeds_stack_from_vault_quantity() {
    let mut parser = PlayerEventParser::new();

    // Storage withdrawal: AddItem with slot>=0 should NOT seed stack to 1
    let events = parser.process_line(
        r#"[15:46:07] LocalPlayer: ProcessAddItem(Phlogiston7(172708606), 60, True)"#,
    );
    assert_eq!(events.len(), 1);
    // Stack should NOT be seeded yet (slot>=0 = storage withdrawal)
    assert!(!parser.stack_size(172708606).is_some());

    // RemoveFromStorageVault seeds the stack from vault quantity
    let events = parser.process_line(
        r#"[15:46:07] LocalPlayer: ProcessRemoveFromStorageVault(302055, -1, 172708606, 1000)"#,
    );
    assert_eq!(events.len(), 1);
    match &events[0] {
        PlayerEvent::StorageWithdrawal { quantity, .. } => {
            assert_eq!(*quantity, 1000);
        }
        _ => panic!("Expected StorageWithdrawal"),
    }
    // Stack should now be seeded from vault quantity
    assert_eq!(parser.stack_size(172708606).as_ref(), Some(&1000));

    // A subsequent UpdateItemCode should compute correct delta from 1000
    let events = parser.process_line(
        r#"[15:48:12] LocalPlayer: ProcessUpdateItemCode(172708606, 16346571, False)"#,
    );
    assert_eq!(events.len(), 1);
    match &events[0] {
        PlayerEvent::ItemStackChanged { old_stack_size, new_stack_size, delta, .. } => {
            assert_eq!(*old_stack_size, 1000);
            // (16346571 >> 16) + 1 = 250
            assert_eq!(*new_stack_size, 250);
            assert_eq!(*delta, -750);
        }
        _ => panic!("Expected ItemStackChanged"),
    }
}

#[test]
fn test_storage_withdrawal_no_false_delta_on_update_item_code() {
    let mut parser = PlayerEventParser::new();

    // Withdraw IceCore stack of 10 from storage
    parser.process_line(
        r#"[21:17:44] LocalPlayer: ProcessAddItem(IceCore(151917070), 68, True)"#,
    );
    parser.process_line(
        r#"[21:17:44] LocalPlayer: ProcessRemoveFromStorageVault(9964570, -1, 151917070, 10)"#,
    );

    // UpdateItemCode confirming stack=10 should have delta=0, not +9
    // encoded: (9 << 16) | 1153 = 590977, actual stack = 9+1 = 10
    let events = parser.process_line(
        r#"[21:17:44] LocalPlayer: ProcessUpdateItemCode(151917070, 590977, True)"#,
    );
    assert_eq!(events.len(), 1);
    match &events[0] {
        PlayerEvent::ItemStackChanged { old_stack_size, new_stack_size, delta, .. } => {
            assert_eq!(*old_stack_size, 10);
            assert_eq!(*new_stack_size, 10); // (590977 >> 16) + 1 = 10
            assert_eq!(*delta, 0); // No false gain!
        }
        _ => panic!("Expected ItemStackChanged"),
    }
}

#[test]
fn test_parse_end_interaction() {
    let mut parser = PlayerEventParser::new();
    let events = parser.process_line(r#"[13:27:00] LocalPlayer: ProcessEndInteraction(14804)"#);
    assert_eq!(events.len(), 1);
    match &events[0] {
        PlayerEvent::InteractionEnded { entity_id, .. } => {
            assert_eq!(*entity_id, 14804);
        }
        _ => panic!("Expected InteractionEnded"),
    }
}

#[test]
fn test_parse_end_interaction_negative_entity_id() {
    let mut parser = PlayerEventParser::new();
    let events = parser.process_line(r#"[16:06:27] LocalPlayer: ProcessEndInteraction(-153)"#);
    assert_eq!(events.len(), 1);
    match &events[0] {
        PlayerEvent::InteractionEnded { entity_id, .. } => {
            assert_eq!(*entity_id, -153);
        }
        _ => panic!("Expected InteractionEnded"),
    }
}

#[test]
fn test_end_interaction_clears_context() {
    let mut parser = PlayerEventParser::new();
    // Start an interaction
    parser.process_line(
        r#"[13:26:55] LocalPlayer: ProcessStartInteraction(14804, 7, 1200, True, "NPC_Qatik")"#,
    );
    assert!(parser.has_interaction());

    // End the interaction
    parser.process_line(r#"[13:27:00] LocalPlayer: ProcessEndInteraction(14804)"#);
    assert!(!parser.has_interaction());
}

#[test]
fn test_parse_set_active_skills() {
    let mut parser = PlayerEventParser::new();
    let events = parser
        .process_line(r#"[23:33:22] LocalPlayer: ProcessSetActiveSkills(Riding, Mentalism)"#);
    assert_eq!(events.len(), 1);
    match &events[0] {
        PlayerEvent::ActiveSkillsChanged { skill1, skill2, .. } => {
            assert_eq!(skill1, "Riding");
            assert_eq!(skill2, "Mentalism");
        }
        _ => panic!("Expected ActiveSkillsChanged"),
    }
}

#[test]
fn test_parse_set_active_skills_combat() {
    let mut parser = PlayerEventParser::new();
    let events = parser
        .process_line(r#"[23:33:31] LocalPlayer: ProcessSetActiveSkills(Hammer, Mentalism)"#);
    assert_eq!(events.len(), 1);
    match &events[0] {
        PlayerEvent::ActiveSkillsChanged { skill1, skill2, .. } => {
            assert_eq!(skill1, "Hammer");
            assert_eq!(skill2, "Mentalism");
        }
        _ => panic!("Expected ActiveSkillsChanged"),
    }
}

#[test]
fn test_parse_player_mount() {
    let mut parser = PlayerEventParser::new();
    let events =
        parser.process_line(r#"[23:33:25] LocalPlayer: ProcessPlayerMount(11921978, True)"#);
    assert_eq!(events.len(), 1);
    match &events[0] {
        PlayerEvent::MountStateChanged {
            entity_id,
            is_mounting,
            ..
        } => {
            assert_eq!(*entity_id, 11921978);
            assert!(*is_mounting);
        }
        _ => panic!("Expected MountStateChanged"),
    }
}

#[test]
fn test_parse_player_dismount() {
    let mut parser = PlayerEventParser::new();
    let events =
        parser.process_line(r#"[23:33:31] LocalPlayer: ProcessPlayerMount(11921978, False)"#);
    assert_eq!(events.len(), 1);
    match &events[0] {
        PlayerEvent::MountStateChanged {
            entity_id,
            is_mounting,
            ..
        } => {
            assert_eq!(*entity_id, 11921978);
            assert!(!*is_mounting);
        }
        _ => panic!("Expected MountStateChanged"),
    }
}

#[test]
fn test_parse_set_weather() {
    let mut parser = PlayerEventParser::new();
    let events =
        parser.process_line(r#"[23:32:47] LocalPlayer: ProcessSetWeather("Clear Sky", True)"#);
    assert_eq!(events.len(), 1);
    match &events[0] {
        PlayerEvent::WeatherChanged {
            weather_name,
            is_active,
            ..
        } => {
            assert_eq!(weather_name, "Clear Sky");
            assert!(*is_active);
        }
        _ => panic!("Expected WeatherChanged"),
    }
}

#[test]
fn test_parse_set_weather_cloudy() {
    let mut parser = PlayerEventParser::new();
    let events =
        parser.process_line(r#"[16:06:32] LocalPlayer: ProcessSetWeather("Cloudy 3", True)"#);
    assert_eq!(events.len(), 1);
    match &events[0] {
        PlayerEvent::WeatherChanged { weather_name, .. } => {
            assert_eq!(weather_name, "Cloudy 3");
        }
        _ => panic!("Expected WeatherChanged"),
    }
}

#[test]
fn test_parse_update_recipe() {
    let mut parser = PlayerEventParser::new();
    let events =
        parser.process_line(r#"[16:10:13] LocalPlayer: ProcessUpdateRecipe(21052, 151)"#);
    assert_eq!(events.len(), 1);
    match &events[0] {
        PlayerEvent::RecipeUpdated {
            recipe_id,
            completion_count,
            ..
        } => {
            assert_eq!(*recipe_id, 21052);
            assert_eq!(*completion_count, 151);
        }
        _ => panic!("Expected RecipeUpdated"),
    }
}

#[test]
fn test_parse_update_recipe_new() {
    let mut parser = PlayerEventParser::new();
    let events = parser.process_line(r#"[16:10:13] LocalPlayer: ProcessUpdateRecipe(5001, 0)"#);
    assert_eq!(events.len(), 1);
    match &events[0] {
        PlayerEvent::RecipeUpdated {
            recipe_id,
            completion_count,
            ..
        } => {
            assert_eq!(*recipe_id, 5001);
            assert_eq!(*completion_count, 0);
        }
        _ => panic!("Expected RecipeUpdated"),
    }
}

#[test]
fn test_parse_combat_mode_not_in_combat() {
    let mut parser = PlayerEventParser::new();
    let events = parser.process_line(
        r#"[23:33:33] LocalPlayer: ProcessCombatModeStatus(NotInCombat, System.Int32[])"#,
    );
    assert_eq!(events.len(), 1);
    match &events[0] {
        PlayerEvent::CombatStateChanged { in_combat, .. } => {
            assert!(!*in_combat);
        }
        _ => panic!("Expected CombatStateChanged"),
    }
}

#[test]
fn test_parse_combat_mode_in_combat() {
    let mut parser = PlayerEventParser::new();
    let events = parser.process_line(
        r#"[23:33:33] LocalPlayer: ProcessCombatModeStatus(InCombat, System.Int32[])"#,
    );
    assert_eq!(events.len(), 1);
    match &events[0] {
        PlayerEvent::CombatStateChanged { in_combat, .. } => {
            assert!(*in_combat);
        }
        _ => panic!("Expected CombatStateChanged"),
    }
}

#[test]
fn test_parse_vendor_update_gold() {
    let mut parser = PlayerEventParser::new();
    let events = parser.process_line(
        r#"[16:32:25] LocalPlayer: ProcessVendorUpdateAvailableGold(14880, 123456789, 15000)"#,
    );
    assert_eq!(events.len(), 1);
    match &events[0] {
        PlayerEvent::VendorGoldChanged {
            current_gold,
            server_id,
            max_gold,
            ..
        } => {
            assert_eq!(*current_gold, 14880);
            assert_eq!(*server_id, 123456789);
            assert_eq!(*max_gold, 15000);
        }
        _ => panic!("Expected VendorGoldChanged"),
    }
}

#[test]
fn test_parse_vendor_update_gold_after_sale() {
    let mut parser = PlayerEventParser::new();
    let events = parser.process_line(
        r#"[16:32:27] LocalPlayer: ProcessVendorUpdateAvailableGold(14776, 123456789, 15000)"#,
    );
    assert_eq!(events.len(), 1);
    match &events[0] {
        PlayerEvent::VendorGoldChanged { current_gold, .. } => {
            assert_eq!(*current_gold, 14776);
        }
        _ => panic!("Expected VendorGoldChanged"),
    }
}

#[test]
fn test_parse_set_attributes_single() {
    let mut parser = PlayerEventParser::new();
    let events = parser.process_line(
        r#"[23:33:25] LocalPlayer: ProcessSetAttributes(11921978, "[IS_MOUNTED], [1]")"#,
    );
    assert_eq!(events.len(), 1);
    match &events[0] {
        PlayerEvent::AttributesChanged {
            entity_id,
            attributes,
            ..
        } => {
            assert_eq!(*entity_id, 11921978);
            assert_eq!(attributes.len(), 1);
            assert_eq!(attributes[0].name, "IS_MOUNTED");
            assert!((attributes[0].value.parse::<f32>().unwrap() - 1.0).abs() < 0.001);
        }
        _ => panic!("Expected AttributesChanged"),
    }
}

#[test]
fn test_parse_set_attributes_multiple() {
    let mut parser = PlayerEventParser::new();
    let events = parser.process_line(
        r#"[23:33:33] LocalPlayer: ProcessSetAttributes(11921978, "[CUR_HEALTH, MAX_HEALTH, CUR_POWER, MAX_POWER], [667, 667, 442, 442]")"#
    );
    assert_eq!(events.len(), 1);
    match &events[0] {
        PlayerEvent::AttributesChanged {
            entity_id,
            attributes,
            ..
        } => {
            assert_eq!(*entity_id, 11921978);
            assert_eq!(attributes.len(), 4);
            assert_eq!(attributes[0].name, "CUR_HEALTH");
            assert!((attributes[0].value.parse::<f32>().unwrap() - 667.0).abs() < 0.001);
            assert_eq!(attributes[1].name, "MAX_HEALTH");
            assert_eq!(attributes[2].name, "CUR_POWER");
            assert!((attributes[2].value.parse::<f32>().unwrap() - 442.0).abs() < 0.001);
            assert_eq!(attributes[3].name, "MAX_POWER");
        }
        _ => panic!("Expected AttributesChanged"),
    }
}

#[test]
fn test_parse_set_attributes_float_value() {
    let mut parser = PlayerEventParser::new();
    let events = parser.process_line(
        r#"[23:32:47] LocalPlayer: ProcessSetAttributes(11921435, "[WORKORDER_COIN_REWARD_MOD], [1.36]")"#
    );
    assert_eq!(events.len(), 1);
    match &events[0] {
        PlayerEvent::AttributesChanged { attributes, .. } => {
            assert_eq!(attributes.len(), 1);
            assert_eq!(attributes[0].name, "WORKORDER_COIN_REWARD_MOD");
            assert!((attributes[0].value.parse::<f32>().unwrap() - 1.36).abs() < 0.001);
        }
        _ => panic!("Expected AttributesChanged"),
    }
}

#[test]
fn test_parse_load_abilities() {
    let mut parser = PlayerEventParser::new();
    let events = parser.process_line(
        r#"[23:32:47] LocalPlayer: ProcessLoadAbilities(System.Int32[], Hammer, Mentalism, AbilityBarContents[])"#
    );
    assert_eq!(events.len(), 1);
    match &events[0] {
        PlayerEvent::AbilitiesLoaded { skill1, skill2, .. } => {
            assert_eq!(skill1, "Hammer");
            assert_eq!(skill2, "Mentalism");
        }
        _ => panic!("Expected AbilitiesLoaded"),
    }
}

#[test]
fn test_parse_load_abilities_riding() {
    let mut parser = PlayerEventParser::new();
    let events = parser.process_line(
        r#"[23:33:25] LocalPlayer: ProcessLoadAbilities(System.Int32[], Riding, Mentalism, AbilityBarContents[])"#
    );
    assert_eq!(events.len(), 1);
    match &events[0] {
        PlayerEvent::AbilitiesLoaded { skill1, skill2, .. } => {
            assert_eq!(skill1, "Riding");
            assert_eq!(skill2, "Mentalism");
        }
        _ => panic!("Expected AbilitiesLoaded"),
    }
}

#[test]
fn test_parse_load_recipes() {
    let mut parser = PlayerEventParser::new();
    let events = parser.process_line(
        r#"[23:46:08] LocalPlayer: ProcessLoadRecipes(System.Int32[], System.Int32[])"#,
    );
    assert_eq!(events.len(), 1);
    match &events[0] {
        PlayerEvent::RecipesLoaded { timestamp, .. } => {
            assert_eq!(timestamp, "23:46:08");
        }
        _ => panic!("Expected RecipesLoaded"),
    }
}

#[test]
fn test_parse_set_equipped_items() {
    let mut parser = PlayerEventParser::new();
    let events = parser.process_line(
        r#"[23:32:47] LocalPlayer: ProcessSetEquippedItems(System.Int32[], System.Int32[], System.Int32[], "@Base2-f(sex=f;race=h;@Chest=@eq-{sex}2-chest-steel-02(^Armor={sex}2-body-steel-02-thorian2;Color1=500050);@MainHand=eq-x-hammer1;MainHandEquip=Hammer;@Feet=@eq-{sex}2-feet-greaves-steel-02(^Armor={sex}2-feet-greaves-steel-02-thorian2;Color1=800080))", 11921435)"#
    );
    assert_eq!(events.len(), 1);
    match &events[0] {
        PlayerEvent::EquipmentChanged {
            entity_id,
            equipment,
            ..
        } => {
            assert_eq!(*entity_id, 11921435);
            // Should find Chest, MainHand, Feet, MainHandEquip
            let slot_names: Vec<&str> = equipment.iter().map(|s| s.slot.as_str()).collect();
            assert!(
                slot_names.contains(&"Chest"),
                "Missing Chest slot: {:?}",
                slot_names
            );
            assert!(
                slot_names.contains(&"MainHand"),
                "Missing MainHand slot: {:?}",
                slot_names
            );
            assert!(
                slot_names.contains(&"Feet"),
                "Missing Feet slot: {:?}",
                slot_names
            );
            assert!(
                slot_names.contains(&"MainHandEquip"),
                "Missing MainHandEquip: {:?}",
                slot_names
            );

            // Verify MainHand value
            let main_hand = equipment.iter().find(|s| s.slot == "MainHand").unwrap();
            assert_eq!(main_hand.appearance_key, "eq-x-hammer1");

            // Verify MainHandEquip value
            let equip_type = equipment
                .iter()
                .find(|s| s.slot == "MainHandEquip")
                .unwrap();
            assert_eq!(equip_type.appearance_key, "Hammer");
        }
        _ => panic!("Expected EquipmentChanged"),
    }
}

#[test]
fn test_parse_set_equipped_items_mount_entity() {
    let mut parser = PlayerEventParser::new();
    let events = parser.process_line(
        r#"[23:33:25] LocalPlayer: ProcessSetEquippedItems(System.Int32[], System.Int32[], System.Int32[], "@Base2-f(sex=f;race=h;@Head=FloatingGem2;@OffHandShield=eq-x-shield5;OffHandEquip=Shield)", 11921978)"#
    );
    assert_eq!(events.len(), 1);
    match &events[0] {
        PlayerEvent::EquipmentChanged {
            entity_id,
            equipment,
            ..
        } => {
            assert_eq!(*entity_id, 11921978);
            let slot_names: Vec<&str> = equipment.iter().map(|s| s.slot.as_str()).collect();
            assert!(
                slot_names.contains(&"Head"),
                "Missing Head: {:?}",
                slot_names
            );
            assert!(
                slot_names.contains(&"OffHandShield"),
                "Missing OffHandShield: {:?}",
                slot_names
            );
            assert!(
                slot_names.contains(&"OffHandEquip"),
                "Missing OffHandEquip: {:?}",
                slot_names
            );
        }
        _ => panic!("Expected EquipmentChanged"),
    }
}

#[test]
fn test_equipment_slot_parsing_nested_parens() {
    // Verify that nested parens in appearance values are handled correctly
    let slots = parse_equipment_slots(
        "@Chest=@eq-f2-chest-steel-02(^Armor=f2-body-steel-02;Color1=500050;Color2=C0C0C0);@Legs=@eq-f2-legs-steel-02(^Armor=f2-body-steel-02;Color1=500050)"
    );
    assert_eq!(slots.len(), 2);
    assert_eq!(slots[0].slot, "Chest");
    assert_eq!(
        slots[0].appearance_key,
        "@eq-f2-chest-steel-02(^Armor=f2-body-steel-02;Color1=500050;Color2=C0C0C0)"
    );
    assert_eq!(slots[1].slot, "Legs");
    assert_eq!(
        slots[1].appearance_key,
        "@eq-f2-legs-steel-02(^Armor=f2-body-steel-02;Color1=500050)"
    );
}

#[test]
fn test_parse_add_effects_login_batch() {
    let mut parser = PlayerEventParser::new();
    let events = parser.process_line(
        r#"[23:32:46] LocalPlayer: ProcessAddEffects(11921435, 0, "[302, 303, 13330, 26297]", False)"#
    );
    assert_eq!(events.len(), 1);
    match &events[0] {
        PlayerEvent::EffectsAdded {
            entity_id,
            source_entity_id,
            effect_ids,
            is_login_batch,
            ..
        } => {
            assert_eq!(*entity_id, 11921435);
            assert_eq!(*source_entity_id, 0);
            assert_eq!(*effect_ids, vec![302, 303, 13330, 26297]);
            assert!(*is_login_batch);
        }
        _ => panic!("Expected EffectsAdded"),
    }
}

#[test]
fn test_parse_add_effects_gameplay() {
    let mut parser = PlayerEventParser::new();
    let events = parser.process_line(
        r#"[23:32:47] LocalPlayer: ProcessAddEffects(11921435, 11921435, "[13304, ]", True)"#,
    );
    assert_eq!(events.len(), 1);
    match &events[0] {
        PlayerEvent::EffectsAdded {
            source_entity_id,
            effect_ids,
            is_login_batch,
            ..
        } => {
            assert_eq!(*source_entity_id, 11921435);
            assert_eq!(*effect_ids, vec![13304]);
            assert!(!*is_login_batch);
        }
        _ => panic!("Expected EffectsAdded"),
    }
}

#[test]
fn test_parse_remove_effects() {
    let mut parser = PlayerEventParser::new();
    let events = parser.process_line(
        r#"[23:35:12] LocalPlayer: ProcessRemoveEffects(11921435, System.Int32[])"#,
    );
    assert_eq!(events.len(), 1);
    match &events[0] {
        PlayerEvent::EffectsRemoved { entity_id, .. } => {
            assert_eq!(*entity_id, 11921435);
        }
        _ => panic!("Expected EffectsRemoved"),
    }
}

#[test]
fn test_parse_update_effect_name() {
    let mut parser = PlayerEventParser::new();
    let events = parser.process_line(
        r#"[23:32:48] LocalPlayer: ProcessUpdateEffectName(11921435, 123456, "Performance Appreciation, Level 0")"#
    );
    assert_eq!(events.len(), 1);
    match &events[0] {
        PlayerEvent::EffectNameUpdated {
            entity_id,
            effect_instance_id,
            display_name,
            ..
        } => {
            assert_eq!(*entity_id, 11921435);
            assert_eq!(*effect_instance_id, 123456);
            assert_eq!(display_name, "Performance Appreciation, Level 0");
        }
        _ => panic!("Expected EffectNameUpdated"),
    }
}

#[test]
fn test_parse_update_description_gardening() {
    let mut parser = PlayerEventParser::new();
    let events = parser.process_line(
        r#"[21:12:31] LocalPlayer: ProcessUpdateDescription(9960026, "Ripe Onion", "This onion is fully grown and in peak condition.", "Harvest Onion", UseItem, "Onion(Scale=1)", 0)"#,
    );
    assert_eq!(events.len(), 1);
    match &events[0] {
        PlayerEvent::EntityDescriptionUpdated {
            entity_id,
            name,
            description,
            action,
            action_type,
            appearance,
            flags,
            ..
        } => {
            assert_eq!(*entity_id, 9960026);
            assert_eq!(name, "Ripe Onion");
            assert_eq!(
                description,
                "This onion is fully grown and in peak condition."
            );
            assert_eq!(action, "Harvest Onion");
            assert_eq!(action_type, "UseItem");
            assert_eq!(appearance, "Onion(Scale=1)");
            assert_eq!(*flags, 0);
        }
        _ => panic!("Expected EntityDescriptionUpdated"),
    }
}

#[test]
fn test_parse_update_description_crafting() {
    let mut parser = PlayerEventParser::new();
    let events = parser.process_line(
        r#"[14:05:22] LocalPlayer: ProcessUpdateDescription(1601585, "Rising Simple Sourdough", "Proofing for 00:00:05", "Bake Simple Sourdough", UseItem, "Dough(Scale=0.36547)", 0)"#,
    );
    assert_eq!(events.len(), 1);
    match &events[0] {
        PlayerEvent::EntityDescriptionUpdated {
            entity_id,
            name,
            description,
            action,
            ..
        } => {
            assert_eq!(*entity_id, 1601585);
            assert_eq!(name, "Rising Simple Sourdough");
            assert_eq!(description, "Proofing for 00:00:05");
            assert_eq!(action, "Bake Simple Sourdough");
        }
        _ => panic!("Expected EntityDescriptionUpdated"),
    }
}

#[test]
fn test_activity_mining_named_node() {
    // Real-world case: StartInteraction carries "MiningNodeFromSurvey9",
    // DoDelayLoop(6, ChopLumber, "Mining...") follows within the same second.
    let mut parser = PlayerEventParser::new();
    parser.process_line(
        r#"[18:04:23] LocalPlayer: ProcessStartInteraction(435138, 7, 0, False, "MiningNodeFromSurvey9")"#,
    );
    parser.process_line(
        r#"[18:04:23] LocalPlayer: ProcessDoDelayLoop(6, ChopLumber, "Mining...", 0, AbortIfAttacked, IsInteractorDelayLoop)"#,
    );

    let ctxs = parser.active_activities();
    assert_eq!(ctxs.len(), 1);
    match &ctxs[0].source {
        ActivitySource::Mining {
            node_entity_id,
            node_name,
        } => {
            assert_eq!(*node_entity_id, Some(435138));
            assert_eq!(node_name.as_deref(), Some("MiningNodeFromSurvey9"));
        }
        other => panic!("Expected Mining source, got {:?}", other),
    }
    assert_eq!(ctxs[0].entity_id, Some(435138));
}

#[test]
fn test_activity_mining_unnamed_node() {
    // Motherlode / plain world nodes often have empty interaction names.
    // We must still detect Mining from the DoDelayLoop label alone.
    let mut parser = PlayerEventParser::new();
    parser.process_line(
        r#"[22:14:23] LocalPlayer: ProcessStartInteraction(1176954, 7, 0, False, "")"#,
    );
    parser.process_line(
        r#"[22:14:23] LocalPlayer: ProcessDoDelayLoop(7, ChopLumber, "Mining ...", 0, AbortIfAttacked, IsInteractorDelayLoop)"#,
    );

    let ctxs = parser.active_activities();
    assert_eq!(ctxs.len(), 1, "Mining context should be detected despite empty name");
    match &ctxs[0].source {
        ActivitySource::Mining {
            node_entity_id,
            node_name,
        } => {
            assert_eq!(*node_entity_id, Some(1176954));
            assert_eq!(node_name.as_deref(), None, "name was empty — stored as None");
        }
        other => panic!("Expected Mining source, got {:?}", other),
    }
}

#[test]
fn test_activity_mining_label_space_variant() {
    // Both "Mining..." and "Mining ..." have appeared across game versions.
    // The classifier must treat them identically.
    let mut parser = PlayerEventParser::new();
    parser.process_line(
        r#"[18:04:23] LocalPlayer: ProcessDoDelayLoop(6, ChopLumber, "Mining ...", 0, AbortIfAttacked, IsInteractorDelayLoop)"#,
    );
    assert!(matches!(
        parser.active_activities()[0].source,
        ActivitySource::Mining { .. }
    ));
}

#[test]
fn test_activity_survey_map_use() {
    let mut parser = PlayerEventParser::new();
    parser.process_line(
        r#"[15:43:36] LocalPlayer: ProcessDoDelayLoop(0.5, Unset, "Using Serbule Blue Mineral Survey", 5305, AbortIfAttacked)"#,
    );

    let ctxs = parser.active_activities();
    assert_eq!(ctxs.len(), 1);
    match &ctxs[0].source {
        ActivitySource::SurveyMapUse {
            survey_map_internal_name,
        } => {
            assert_eq!(
                survey_map_internal_name.as_deref(),
                Some("Serbule Blue Mineral Survey")
            );
        }
        other => panic!("Expected SurveyMapUse, got {:?}", other),
    }
}

#[test]
fn test_activity_survey_map_craft() {
    let mut parser = PlayerEventParser::new();
    parser.process_line(
        r#"[15:24:59] LocalPlayer: ProcessDoDelayLoop(5, UseTeleportationCircle, "Surveying", 5305, AbortIfAttacked)"#,
    );
    assert_eq!(
        parser.active_activities()[0].source,
        ActivitySource::SurveyMapCraft
    );
}

#[test]
fn test_activity_explicit_end_closes_mining() {
    let mut parser = PlayerEventParser::new();
    parser.process_line(
        r#"[18:04:23] LocalPlayer: ProcessStartInteraction(435138, 7, 0, False, "MiningNodeFromSurvey9")"#,
    );
    parser.process_line(
        r#"[18:04:23] LocalPlayer: ProcessDoDelayLoop(6, ChopLumber, "Mining...", 0, AbortIfAttacked, IsInteractorDelayLoop)"#,
    );
    assert_eq!(parser.active_activities().len(), 1);

    parser.process_line(r#"[18:04:29] LocalPlayer: ProcessEndInteraction(435138)"#);
    assert_eq!(
        parser.active_activities().len(),
        0,
        "EndInteraction should close matching mining context"
    );
}

#[test]
fn test_activity_times_out_after_deadline() {
    let mut parser = PlayerEventParser::new();
    parser.process_line(
        r#"[18:04:23] LocalPlayer: ProcessDoDelayLoop(6, ChopLumber, "Mining...", 0, AbortIfAttacked, IsInteractorDelayLoop)"#,
    );
    assert_eq!(parser.active_activities().len(), 1);

    // 6s duration + 2s slack = should still be active at 18:04:30
    parser
        .process_line(r#"[18:04:30] LocalPlayer: ProcessCombatModeStatus(NotInCombat, [])"#);
    assert_eq!(parser.active_activities().len(), 1);

    // By 18:04:32 (9s after start) the context should have expired
    parser
        .process_line(r#"[18:04:32] LocalPlayer: ProcessCombatModeStatus(NotInCombat, [])"#);
    assert_eq!(parser.active_activities().len(), 0);
}

#[test]
fn test_activity_repeated_delay_loop_does_not_stack() {
    // Some delay loops re-emit on every tick for the same activity. We
    // must refresh the deadline in place, not push duplicate contexts.
    let mut parser = PlayerEventParser::new();
    parser.process_line(
        r#"[18:04:23] LocalPlayer: ProcessStartInteraction(435138, 7, 0, False, "MiningNodeFromSurvey9")"#,
    );
    parser.process_line(
        r#"[18:04:23] LocalPlayer: ProcessDoDelayLoop(6, ChopLumber, "Mining...", 0, AbortIfAttacked, IsInteractorDelayLoop)"#,
    );
    parser.process_line(
        r#"[18:04:24] LocalPlayer: ProcessDoDelayLoop(6, ChopLumber, "Mining...", 0, AbortIfAttacked, IsInteractorDelayLoop)"#,
    );
    parser.process_line(
        r#"[18:04:25] LocalPlayer: ProcessDoDelayLoop(6, ChopLumber, "Mining...", 0, AbortIfAttacked, IsInteractorDelayLoop)"#,
    );
    assert_eq!(parser.active_activities().len(), 1, "same-entity repeated loops collapse");
}

#[test]
fn test_activity_corpse_search_from_talk_screen() {
    let mut parser = PlayerEventParser::new();
    parser.process_line(
        r#"[18:04:38] LocalPlayer: ProcessStartInteraction(435269, 10, 0, False, "")"#,
    );
    parser.process_line(
        r#"[18:04:38] LocalPlayer: ProcessTalkScreen(435269, "Search Corpse of Ratkin Miner", "", "", System.Int32[], System.String[], 0, Corpse)"#,
    );

    let ctxs = parser.active_activities();
    assert_eq!(ctxs.len(), 1);
    match &ctxs[0].source {
        ActivitySource::CorpseSearch {
            entity_id,
            corpse_name,
        } => {
            assert_eq!(*entity_id, 435269);
            assert_eq!(corpse_name, "Ratkin Miner");
        }
        other => panic!("Expected CorpseSearch, got {:?}", other),
    }
}

#[test]
fn test_activity_vendor_browsing_enriched_with_npc_name() {
    let mut parser = PlayerEventParser::new();
    parser.process_line(
        r#"[15:54:17] LocalPlayer: ProcessStartInteraction(32857, 7, 522.75, True, "NPC_FarsightFlemmings")"#,
    );
    parser.process_line(
        r#"[15:54:18] LocalPlayer: ProcessVendorScreen(32857, Friends, 20000, 0, 20000, "", VendorInfo[], VendorInfo[], VendorInfo[], VendorPurchaseCap[], [-1201,-1601,-1101,-1301,-2001,-1801,], System.String[], -1601)"#,
    );

    let ctxs = parser.active_activities();
    assert_eq!(ctxs.len(), 1);
    match &ctxs[0].source {
        ActivitySource::VendorBrowsing {
            npc_entity_id,
            npc_name,
        } => {
            assert_eq!(*npc_entity_id, 32857);
            assert_eq!(npc_name.as_deref(), Some("NPC_FarsightFlemmings"));
        }
        other => panic!("Expected VendorBrowsing, got {:?}", other),
    }
}

#[test]
fn test_activity_storage_browsing_captures_vault_name() {
    let mut parser = PlayerEventParser::new();
    parser.process_line(
        r#"[15:45:38] LocalPlayer: ProcessShowStorageVault(302055, 114, "Saddlebag", "Access saddlebag contents here", 80, System.Collections.Generic.List`1[Item], System.String[], "", [], System.String[], 0)"#,
    );

    let ctxs = parser.active_activities();
    assert_eq!(ctxs.len(), 1);
    match &ctxs[0].source {
        ActivitySource::StorageBrowsing {
            vault_owner_entity_id,
            vault_name,
        } => {
            assert_eq!(*vault_owner_entity_id, 302055);
            assert_eq!(vault_name, "Saddlebag");
        }
        other => panic!("Expected StorageBrowsing, got {:?}", other),
    }
}

#[test]
fn test_activity_overlapping_contexts_coexist() {
    // Mining gets interrupted by combat, player kills attacker, searches
    // corpse — all before the mining context times out. Both contexts
    // should be present on the stack during the overlap.
    let mut parser = PlayerEventParser::new();
    parser.process_line(
        r#"[18:04:23] LocalPlayer: ProcessStartInteraction(435138, 7, 0, False, "MiningNodeFromSurvey9")"#,
    );
    parser.process_line(
        r#"[18:04:23] LocalPlayer: ProcessDoDelayLoop(6, ChopLumber, "Mining...", 0, AbortIfAttacked, IsInteractorDelayLoop)"#,
    );
    parser.process_line(
        r#"[18:04:29] LocalPlayer: ProcessStartInteraction(435214, 10, 0, False, "")"#,
    );
    parser.process_line(
        r#"[18:04:29] LocalPlayer: ProcessTalkScreen(435214, "Search Corpse of Ratkin Miner", "", "", System.Int32[], System.String[], 0, Corpse)"#,
    );

    let ctxs = parser.active_activities();
    assert_eq!(ctxs.len(), 2, "both mining and corpse-search should be active");
    // Mining was pushed first, corpse search second — stack preserves order
    assert!(matches!(ctxs[0].source, ActivitySource::Mining { .. }));
    assert!(matches!(ctxs[1].source, ActivitySource::CorpseSearch { .. }));
}

#[test]
fn test_activity_closing_one_context_leaves_others() {
    // When the corpse search ends but mining hasn't expired, mining remains.
    let mut parser = PlayerEventParser::new();
    parser.process_line(
        r#"[18:04:23] LocalPlayer: ProcessStartInteraction(435138, 7, 0, False, "MiningNodeFromSurvey9")"#,
    );
    parser.process_line(
        r#"[18:04:23] LocalPlayer: ProcessDoDelayLoop(6, ChopLumber, "Mining...", 0, AbortIfAttacked, IsInteractorDelayLoop)"#,
    );
    parser.process_line(
        r#"[18:04:25] LocalPlayer: ProcessStartInteraction(435214, 10, 0, False, "")"#,
    );
    parser.process_line(
        r#"[18:04:25] LocalPlayer: ProcessTalkScreen(435214, "Search Corpse of Ratkin Miner", "", "", System.Int32[], System.String[], 0, Corpse)"#,
    );
    assert_eq!(parser.active_activities().len(), 2);

    parser.process_line(r#"[18:04:26] LocalPlayer: ProcessEndInteraction(435214)"#);
    let ctxs = parser.active_activities();
    assert_eq!(ctxs.len(), 1);
    assert!(matches!(ctxs[0].source, ActivitySource::Mining { .. }));
}

#[test]
fn test_activity_non_matching_end_interaction_no_effect() {
    let mut parser = PlayerEventParser::new();
    parser.process_line(
        r#"[18:04:23] LocalPlayer: ProcessStartInteraction(435138, 7, 0, False, "MiningNodeFromSurvey9")"#,
    );
    parser.process_line(
        r#"[18:04:23] LocalPlayer: ProcessDoDelayLoop(6, ChopLumber, "Mining...", 0, AbortIfAttacked, IsInteractorDelayLoop)"#,
    );

    // EndInteraction for a different entity — mining context should remain
    parser.process_line(r#"[18:04:24] LocalPlayer: ProcessEndInteraction(999999)"#);
    assert_eq!(parser.active_activities().len(), 1);
}

fn first_provenance(events: &[PlayerEvent]) -> ItemProvenance {
    for ev in events {
        match ev {
            PlayerEvent::ItemAdded { provenance, .. } => return provenance.clone(),
            PlayerEvent::ItemStackChanged { provenance, .. } => return provenance.clone(),
            PlayerEvent::StorageWithdrawal { provenance, .. } => return provenance.clone(),
            _ => {}
        }
    }
    panic!("no gain event with provenance in batch");
}

#[test]
fn test_provenance_unknown_when_no_context() {
    // Genuine new item drop with nothing else going on: should be
    // UnknownSource. This bucket is expected to be sizeable.
    let mut parser = PlayerEventParser::new();
    let events = parser.process_line(
        r#"[12:00:00] LocalPlayer: ProcessAddItem(RandomLoot(12345), -1, True)"#,
    );
    assert_eq!(first_provenance(&events), ItemProvenance::UnknownSource);
}

#[test]
fn test_provenance_session_load_is_not_applicable() {
    // AddItem with is_new=false is a session-load reload — not a gain,
    // even if contexts happen to be active.
    let mut parser = PlayerEventParser::new();
    let events = parser.process_line(
        r#"[12:00:00] LocalPlayer: ProcessAddItem(ExistingItem(999), -1, False)"#,
    );
    assert_eq!(first_provenance(&events), ItemProvenance::NotApplicable);
}

#[test]
fn test_provenance_mining_confident_attribution() {
    // Mining context active → item drop attributes to Mining confidently.
    let mut parser = PlayerEventParser::new();
    parser.process_line(
        r#"[18:04:41] LocalPlayer: ProcessStartInteraction(435138, 7, 0, False, "MiningNodeFromSurvey9")"#,
    );
    parser.process_line(
        r#"[18:04:41] LocalPlayer: ProcessDoDelayLoop(6, ChopLumber, "Mining...", 0, AbortIfAttacked, IsInteractorDelayLoop)"#,
    );
    let events = parser.process_line(
        r#"[18:04:47] LocalPlayer: ProcessAddItem(Orichalcum(185976137), -1, True)"#,
    );

    match first_provenance(&events) {
        ItemProvenance::Attributed {
            source, confidence, ..
        } => {
            assert!(matches!(source, ActivitySource::Mining { .. }));
            assert_eq!(confidence, AttributionConfidence::Confident);
        }
        other => panic!("Expected Attributed Mining, got {:?}", other),
    }
}

#[test]
fn test_provenance_survey_map_use() {
    let mut parser = PlayerEventParser::new();
    parser.process_line(
        r#"[15:43:36] LocalPlayer: ProcessDoDelayLoop(0.5, Unset, "Using Serbule Blue Mineral Survey", 5305, AbortIfAttacked)"#,
    );
    let events = parser.process_line(
        r#"[15:43:36] LocalPlayer: ProcessAddItem(Fluorite(181871021), -1, True)"#,
    );
    match first_provenance(&events) {
        ItemProvenance::Attributed { source, .. } => {
            assert!(matches!(source, ActivitySource::SurveyMapUse { .. }));
        }
        other => panic!("Expected Attributed SurveyMapUse, got {:?}", other),
    }
}

#[test]
fn test_provenance_mining_wins_over_passive_corpse_search() {
    // Real overlap scenario from the 50x-povus dataset: player mines a
    // multihit node, gets attacked between swings, kills the attacker,
    // and a corpse-search screen opens. Then the next mining swing
    // produces loot. With both Mining and CorpseSearch contexts active,
    // the loot belongs to Mining (the explicit active task). The
    // parser's tie-breaker should pick Mining with Probable confidence.
    //
    // This matters at scale: in the povus dataset, this overlap drops
    // ~40% of mining loot into Uncertain without the tie-breaker. With
    // it, mining-loot attribution rises from ~60% to ~99%.
    let mut parser = PlayerEventParser::new();
    parser.process_line(
        r#"[18:04:23] LocalPlayer: ProcessStartInteraction(435138, 7, 0, False, "MiningNodeFromSurvey9")"#,
    );
    parser.process_line(
        r#"[18:04:23] LocalPlayer: ProcessDoDelayLoop(6, ChopLumber, "Mining...", 0, AbortIfAttacked, IsInteractorDelayLoop)"#,
    );
    parser.process_line(
        r#"[18:04:25] LocalPlayer: ProcessStartInteraction(435214, 10, 0, False, "")"#,
    );
    parser.process_line(
        r#"[18:04:25] LocalPlayer: ProcessTalkScreen(435214, "Search Corpse of Ratkin Miner", "", "", System.Int32[], System.String[], 0, Corpse)"#,
    );
    let events = parser.process_line(
        r#"[18:04:26] LocalPlayer: ProcessAddItem(Orichalcum(99999), -1, True)"#,
    );
    match first_provenance(&events) {
        ItemProvenance::Attributed {
            source,
            confidence,
            ..
        } => {
            assert!(matches!(source, ActivitySource::Mining { .. }),
                "expected Mining attribution, got {:?}", source);
            assert_eq!(confidence, AttributionConfidence::Probable,
                "tie-breaker outcome should be Probable, not Confident");
        }
        other => panic!("Expected Attributed Mining, got {:?}", other),
    }
}

#[test]
fn test_provenance_uncertain_when_two_non_mining_contexts() {
    // The Mining-vs-passive tie-breaker only applies when Mining is one
    // of the candidates. Other multi-context overlaps (e.g., corpse
    // search while a vendor screen is open) still produce Uncertain so
    // downstream code doesn't get a confident wrong answer.
    let mut parser = PlayerEventParser::new();
    parser.process_line(
        r#"[12:00:00] LocalPlayer: ProcessStartInteraction(100, 7, 0, False, "NPC_Vendor")"#,
    );
    parser.process_line(
        r#"[12:00:00] LocalPlayer: ProcessVendorScreen(100, Friends, 20000, 0, 20000, "", VendorInfo[], VendorInfo[], VendorInfo[], VendorPurchaseCap[], [], System.String[], -1601)"#,
    );
    parser.process_line(
        r#"[12:00:01] LocalPlayer: ProcessStartInteraction(200, 10, 0, False, "")"#,
    );
    parser.process_line(
        r#"[12:00:01] LocalPlayer: ProcessTalkScreen(200, "Search Corpse of Some Mob", "", "", System.Int32[], System.String[], 0, Corpse)"#,
    );
    let events = parser.process_line(
        r#"[12:00:02] LocalPlayer: ProcessAddItem(MysteryItem(77777), -1, True)"#,
    );
    match first_provenance(&events) {
        ItemProvenance::Uncertain { candidates } => {
            assert_eq!(candidates.len(), 2,
                "expected two candidates for non-mining overlap");
        }
        other => panic!("Expected Uncertain, got {:?}", other),
    }
}

#[test]
fn test_provenance_on_stack_change_positive_delta() {
    // Existing stack gaining items during mining → ItemStackChanged gets
    // Mining provenance. Simulates survey-loot-into-existing-stack.
    let mut parser = PlayerEventParser::new();
    // Establish baseline for an item
    parser.process_line(
        r#"[17:00:00] LocalPlayer: ProcessAddItem(Rubyquartz(555), -1, False)"#,
    );
    parser.process_line(
        r#"[17:00:01] LocalPlayer: ProcessUpdateItemCode(555, 131072, True)"#, // stack=3
    );

    // Open mining context
    parser.process_line(
        r#"[17:05:00] LocalPlayer: ProcessDoDelayLoop(6, ChopLumber, "Mining...", 0, AbortIfAttacked, IsInteractorDelayLoop)"#,
    );
    // Stack grows from 3 to 5 (+2) — should be attributed to Mining
    let events =
        parser.process_line(r#"[17:05:05] LocalPlayer: ProcessUpdateItemCode(555, 262144, True)"#);

    match first_provenance(&events) {
        ItemProvenance::Attributed { source, .. } => {
            assert!(matches!(source, ActivitySource::Mining { .. }));
        }
        other => panic!("Expected Attributed Mining, got {:?}", other),
    }
}

#[test]
fn test_provenance_negative_delta_is_not_applicable() {
    // Stack shrinking (consumption during crafting, selling, etc.) is a
    // loss, not a gain. Provenance should be NotApplicable regardless of
    // active contexts so gain-aggregates don't include it.
    let mut parser = PlayerEventParser::new();
    parser.process_line(r#"[10:00:00] LocalPlayer: ProcessAddItem(Ink(42), -1, False)"#);
    parser.process_line(r#"[10:00:01] LocalPlayer: ProcessUpdateItemCode(42, 262144, True)"#); // stack=5

    // Open a crafting context
    parser.process_line(
        r#"[10:01:00] LocalPlayer: ProcessDoDelayLoop(5, UseTeleportationCircle, "Surveying", 5305, AbortIfAttacked)"#,
    );
    // Stack drops 5 → 4 (consumption)
    let events =
        parser.process_line(r#"[10:01:05] LocalPlayer: ProcessUpdateItemCode(42, 196608, True)"#);

    // Stack delta is -1 → should be NotApplicable
    assert_eq!(first_provenance(&events), ItemProvenance::NotApplicable);
}

#[test]
fn test_provenance_storage_withdrawal_attributes_to_storage() {
    // Storage withdrawal should attribute to the StorageBrowsing context
    // whose owner matches the vault npc_id.
    let mut parser = PlayerEventParser::new();
    parser.process_line(
        r#"[15:45:38] LocalPlayer: ProcessShowStorageVault(302055, 114, "Saddlebag", "Access saddlebag contents here", 80, System.Collections.Generic.List`1[Item], System.String[], "", [], System.String[], 0)"#,
    );
    // ProcessAddItem for the withdrawal (slot>=0 branch doesn't seed stack)
    parser.process_line(
        r#"[15:46:07] LocalPlayer: ProcessAddItem(Phlogiston7(172708606), 60, True)"#,
    );
    let events = parser.process_line(
        r#"[15:46:07] LocalPlayer: ProcessRemoveFromStorageVault(302055, -1, 172708606, 1000)"#,
    );

    // There may be an ItemAdded event first; find the StorageWithdrawal.
    let prov = events
        .iter()
        .find_map(|ev| match ev {
            PlayerEvent::StorageWithdrawal { provenance, .. } => Some(provenance.clone()),
            _ => None,
        })
        .expect("StorageWithdrawal event present");

    match prov {
        ItemProvenance::Attributed {
            source, confidence, ..
        } => {
            match source {
                ActivitySource::StorageBrowsing {
                    vault_owner_entity_id,
                    vault_name,
                } => {
                    assert_eq!(vault_owner_entity_id, 302055);
                    assert_eq!(vault_name, "Saddlebag");
                }
                other => panic!("Expected StorageBrowsing, got {:?}", other),
            }
            assert_eq!(confidence, AttributionConfidence::Confident);
        }
        other => panic!("Expected Attributed StorageBrowsing, got {:?}", other),
    }
}

#[test]
fn test_provenance_after_context_timeout_is_unknown() {
    // A mining context that times out before the item drops should
    // produce UnknownSource, not attribute to the stale context.
    let mut parser = PlayerEventParser::new();
    parser.process_line(
        r#"[12:00:00] LocalPlayer: ProcessDoDelayLoop(6, ChopLumber, "Mining...", 0, AbortIfAttacked, IsInteractorDelayLoop)"#,
    );
    // Item drops way past the 6s + 2s slack deadline
    let events = parser.process_line(
        r#"[12:01:00] LocalPlayer: ProcessAddItem(LateGain(777), -1, True)"#,
    );
    assert_eq!(first_provenance(&events), ItemProvenance::UnknownSource);
}

#[test]
fn test_chat_gain_seeds_stack_from_chat_quantity() {
    // Classic vendor-buy case: player bought 5 brains. Chat reports qty=5
    // while player.log's AddItem has no quantity info. The chat event
    // arrives slightly before the player.log AddItem (or vice versa);
    // the parser must correlate them and seed the stack to 5.
    let mut parser = PlayerEventParser::new();
    parser.feed_chat_gain("Brain".to_string(), 5, "15:56:03");

    parser.process_line(
        r#"[15:56:03] LocalPlayer: ProcessAddItem(Brain(187042326), -1, True)"#,
    );

    // Stack should now be seeded at 5. A subsequent UpdateItemCode going
    // from 5 to 6 should report delta=+1, not +5 (as it would with the
    // old seed-to-1 behavior).
    let events = parser.process_line(
        // encoded 328790 → (328790 >> 16) + 1 = 6, typeId = 1110
        r#"[15:56:36] LocalPlayer: ProcessUpdateItemCode(187042326, 328790, True)"#,
    );
    let change = events.iter().find_map(|ev| match ev {
        PlayerEvent::ItemStackChanged { old_stack_size, new_stack_size, delta, .. } => {
            Some((*old_stack_size, *new_stack_size, *delta))
        }
        _ => None,
    }).expect("ItemStackChanged expected");

    assert_eq!(change.0, 5, "prior stack should have been seeded to 5 from chat");
    assert_eq!(change.1, 6);
    assert_eq!(change.2, 1);
}

#[test]
fn test_chat_gain_no_match_falls_back_to_one() {
    // AddItem with no matching chat gain in the buffer should still
    // seed to 1 (the prior behavior) — correct for single-item pickups.
    let mut parser = PlayerEventParser::new();
    parser.process_line(
        r#"[12:00:00] LocalPlayer: ProcessAddItem(Mushroom8(12345), -1, True)"#,
    );
    assert_eq!(*parser.stack_size(12345).as_ref().unwrap(), 1);
}

#[test]
fn test_chat_gain_outside_window_is_ignored() {
    // Chat gain far in the past shouldn't match a new AddItem.
    let mut parser = PlayerEventParser::new();
    parser.feed_chat_gain("Fluorite".to_string(), 3, "12:00:00");

    // AddItem 10 minutes later — outside the match window
    parser.process_line(
        r#"[12:10:00] LocalPlayer: ProcessAddItem(Fluorite(999), -1, True)"#,
    );
    assert_eq!(
        *parser.stack_size(999).as_ref().unwrap(),
        1,
        "out-of-window chat gain must not seed"
    );
}

#[test]
fn test_chat_gain_consumed_on_first_match() {
    // Two AddItems for the same item type, only one chat gain buffered.
    // The first AddItem should claim the chat quantity; the second falls
    // back to 1. This mirrors the real game behavior where a single
    // pickup can split across stacks — each chat line corresponds to one
    // destination stack.
    let mut parser = PlayerEventParser::new();
    parser.feed_chat_gain("Phlogiston7".to_string(), 750, "15:51:42");

    parser.process_line(
        r#"[15:51:42] LocalPlayer: ProcessAddItem(Phlogiston7(111), -1, True)"#,
    );
    parser.process_line(
        r#"[15:51:42] LocalPlayer: ProcessAddItem(Phlogiston7(222), -1, True)"#,
    );

    // First got the 750, second fell back
    assert_eq!(*parser.stack_size(111).as_ref().unwrap(), 750);
    assert_eq!(*parser.stack_size(222).as_ref().unwrap(), 1);
}

#[test]
fn test_chat_gain_multiple_buffered_all_matchable() {
    // Split pickup case from paired log data: pickup of 1000 phlog
    // fires TWO chat lines (x750 + x250) for the two destination stacks.
    // Both should seed their respective AddItems.
    let mut parser = PlayerEventParser::new();
    parser.feed_chat_gain("Phlogiston7".to_string(), 750, "15:51:42");
    parser.feed_chat_gain("Phlogiston7".to_string(), 250, "15:51:42");

    parser.process_line(
        r#"[15:51:42] LocalPlayer: ProcessAddItem(Phlogiston7(111), -1, True)"#,
    );
    parser.process_line(
        r#"[15:51:42] LocalPlayer: ProcessAddItem(Phlogiston7(222), -1, True)"#,
    );

    // Both instances seeded from chat. Order is not guaranteed
    // (swap_remove reorders the buffer), so just check total seeded mass.
    let a = *parser.stack_size(111).as_ref().unwrap();
    let b = *parser.stack_size(222).as_ref().unwrap();
    assert_eq!(a + b, 1000);
    assert!((a == 750 && b == 250) || (a == 250 && b == 750));
}

#[test]
fn test_chat_gain_different_item_no_cross_match() {
    // Chat gain for one item must not seed a different item.
    let mut parser = PlayerEventParser::new();
    parser.feed_chat_gain("Fluorite".to_string(), 3, "15:43:36");

    parser.process_line(
        r#"[15:43:36] LocalPlayer: ProcessAddItem(BlueSpinel(999), -1, True)"#,
    );
    assert_eq!(*parser.stack_size(999).as_ref().unwrap(), 1, "different item must not be seeded");
}

#[test]
fn test_chat_gain_storage_withdrawal_does_not_consume_chat_entry() {
    // Storage withdrawal AddItems (slot >= 0) get their qty from
    // RemoveFromStorageVault, not from chat. A chat gain meant for a
    // future real pickup must not be wrongly consumed here.
    let mut parser = PlayerEventParser::new();
    parser.feed_chat_gain("Phlogiston7".to_string(), 750, "15:47:00");

    // Storage withdrawal — slot >= 0 branch, should not consume chat gain
    parser.process_line(
        r#"[15:46:07] LocalPlayer: ProcessAddItem(Phlogiston7(111), 60, True)"#,
    );
    parser.process_line(
        r#"[15:46:07] LocalPlayer: ProcessRemoveFromStorageVault(302055, -1, 111, 1000)"#,
    );
    assert_eq!(*parser.stack_size(111).as_ref().unwrap(), 1000, "seeded from vault qty");

    // Later, a real pickup: should claim the chat gain
    parser.process_line(
        r#"[15:47:00] LocalPlayer: ProcessAddItem(Phlogiston7(222), -1, True)"#,
    );
    assert_eq!(*parser.stack_size(222).as_ref().unwrap(), 750);
}

#[test]
fn test_parse_celestial_info() {
    let mut parser = PlayerEventParser::new();
    let events = parser
        .process_line(r#"[23:32:47] LocalPlayer: ProcessSetCelestialInfo(WaxingCrescentMoon)"#);
    assert_eq!(events.len(), 1);
    match &events[0] {
        PlayerEvent::MoonPhaseChanged { phase, .. } => {
            assert_eq!(phase, "WaxingCrescentMoon");
        }
        other => panic!("Expected MoonPhaseChanged, got {:?}", other),
    }
}

#[test]
fn test_parse_celestial_info_full_moon() {
    let mut parser = PlayerEventParser::new();
    let events = parser
        .process_line(r#"[12:00:00] LocalPlayer: ProcessSetCelestialInfo(FullMoon)"#);
    assert_eq!(events.len(), 1);
    match &events[0] {
        PlayerEvent::MoonPhaseChanged { phase, .. } => {
            assert_eq!(phase, "FullMoon");
        }
        other => panic!("Expected MoonPhaseChanged, got {:?}", other),
    }
}

#[test]
fn test_parse_guild_general_info() {
    let mut parser = PlayerEventParser::new();
    let events = parser.process_line(
        r#"[15:16:24] LocalPlayer: ProcessGuildGeneralInfo(57, "SpaceMagic", "Welcome to the guild!")"#,
    );
    assert_eq!(events.len(), 1);
    match &events[0] {
        PlayerEvent::GuildInfoLoaded {
            guild_id,
            guild_name,
            motd,
            ..
        } => {
            assert_eq!(*guild_id, 57);
            assert_eq!(guild_name, "SpaceMagic");
            assert_eq!(motd, "Welcome to the guild!");
        }
        other => panic!("Expected GuildInfoLoaded, got {:?}", other),
    }
}

#[test]
fn test_parse_guild_general_info_empty_motd() {
    let mut parser = PlayerEventParser::new();
    let events = parser.process_line(
        r#"[15:16:24] LocalPlayer: ProcessGuildGeneralInfo(42, "TestGuild", "")"#,
    );
    assert_eq!(events.len(), 1);
    match &events[0] {
        PlayerEvent::GuildInfoLoaded {
            guild_id,
            guild_name,
            motd,
            ..
        } => {
            assert_eq!(*guild_id, 42);
            assert_eq!(guild_name, "TestGuild");
            assert_eq!(motd, "");
        }
        other => panic!("Expected GuildInfoLoaded, got {:?}", other),
    }
}

#[test]
fn test_parse_complete_directed_goals() {
    let mut parser = PlayerEventParser::new();
    let events = parser.process_line(
        r#"[15:16:24] LocalPlayer: ProcessCompleteDirectedGoals([3200,8000,1,70,3400,5000,])"#,
    );
    assert_eq!(events.len(), 1);
    match &events[0] {
        PlayerEvent::DirectedGoalsLoaded { goal_ids, .. } => {
            assert_eq!(goal_ids, &[3200, 8000, 1, 70, 3400, 5000]);
        }
        other => panic!("Expected DirectedGoalsLoaded, got {:?}", other),
    }
}

#[test]
fn test_parse_complete_directed_goals_empty() {
    let mut parser = PlayerEventParser::new();
    let events = parser.process_line(
        r#"[15:16:24] LocalPlayer: ProcessCompleteDirectedGoals([])"#,
    );
    assert_eq!(events.len(), 1);
    match &events[0] {
        PlayerEvent::DirectedGoalsLoaded { goal_ids, .. } => {
            assert!(goal_ids.is_empty());
        }
        other => panic!("Expected DirectedGoalsLoaded, got {:?}", other),
    }
}

#[test]
fn test_parse_set_string_notepad() {
    let mut parser = PlayerEventParser::new();
    let events = parser.process_line(
        r#"[15:16:24] LocalPlayer: ProcessSetString(NOTEPAD, "My notes here")"#,
    );
    assert_eq!(events.len(), 1);
    match &events[0] {
        PlayerEvent::PlayerStringUpdated { key, value, .. } => {
            assert_eq!(key, "NOTEPAD");
            assert_eq!(value, "My notes here");
        }
        other => panic!("Expected PlayerStringUpdated, got {:?}", other),
    }
}

#[test]
fn test_parse_set_string_friend_status() {
    let mut parser = PlayerEventParser::new();
    let events = parser.process_line(
        r#"[15:16:24] LocalPlayer: ProcessSetString(FRIEND_STATUS, "110 Hammer, 101 Ment")"#,
    );
    assert_eq!(events.len(), 1);
    match &events[0] {
        PlayerEvent::PlayerStringUpdated { key, value, .. } => {
            assert_eq!(key, "FRIEND_STATUS");
            assert_eq!(value, "110 Hammer, 101 Ment");
        }
        other => panic!("Expected PlayerStringUpdated, got {:?}", other),
    }
}

#[test]
fn test_parse_set_string_skips_unknown_keys() {
    let mut parser = PlayerEventParser::new();
    let events = parser.process_line(
        r#"[15:16:24] LocalPlayer: ProcessSetString(MOUNT_APPEARANCE, "@Horse1(stuff)")"#,
    );
    assert!(events.is_empty(), "MOUNT_APPEARANCE should be skipped");
}

#[test]
fn test_parse_set_string_all_notepad_tabs() {
    let mut parser = PlayerEventParser::new();
    for tab in &[
        "NOTEPAD_TAB_1",
        "NOTEPAD_TAB_2",
        "NOTEPAD_TAB_3",
        "NOTEPAD_TAB_4",
        "NOTEPAD_TAB_NAMES",
    ] {
        let line = format!(
            r#"[15:16:24] LocalPlayer: ProcessSetString({}, "content")"#,
            tab
        );
        let events = parser.process_line(&line);
        assert_eq!(events.len(), 1, "Should parse {}", tab);
        match &events[0] {
            PlayerEvent::PlayerStringUpdated { key, .. } => {
                assert_eq!(key, *tab);
            }
            other => panic!("Expected PlayerStringUpdated for {}, got {:?}", tab, other),
        }
    }
}

#[test]
fn chat_gain_reaches_an_add_after_other_lines() {
    let mut parser = PlayerEventParser::new();
    parser.feed_chat_gain("Fluorite".to_string(), 4, "12:00:00");
    parser.process_line(r#"[12:00:01] LocalPlayer: ProcessAddItem(Quartz(500), -1, True)"#);
    parser.process_line(r#"[12:00:01] LocalPlayer: ProcessDeleteItem(501)"#);
    parser.process_line("a line without a stamp");
    parser.process_line(r#"[12:00:02] LocalPlayer: ProcessAddItem(Fluorite(999), -1, True)"#);
    assert_eq!(*parser.stack_size(999).as_ref().unwrap(), 4);
    assert_eq!(*parser.stack_size(500).as_ref().unwrap(), 1);
}
