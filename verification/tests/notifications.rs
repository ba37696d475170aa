use nota_core::notifications::{
    NotificationCenter, NotificationTone, notification_classes, notification_outlet_classes,
};

#[test]
fn notification_global_notification_classes_are_visible_but_compact() {
    let outlet = notification_outlet_classes();
    let progress = notification_classes(NotificationTone::Progress);
    let success = notification_classes(NotificationTone::Success);
    let error = notification_classes(NotificationTone::Error);

    assert!(outlet.contains("fixed"));
    assert!(outlet.contains("bottom-16"));
    assert!(outlet.contains("sm:bottom-auto"));
    assert!(outlet.contains("sm:top-5"));
    assert!(outlet.contains("right-3"));
    assert!(outlet.contains("sm:right-5"));
    assert!(outlet.contains("z-50"));
    assert!(outlet.contains("pointer-events-none"));

    for classes in [&progress, &success, &error] {
        assert!(classes.contains("pointer-events-auto"));
        assert!(classes.contains("rounded-md"));
        assert!(classes.contains("border"));
        assert!(classes.contains("shadow-sm"));
        assert!(classes.contains("text-xs"));
        assert!(classes.contains("max-w-[11rem]"));
        assert!(classes.contains("truncate"));
    }

    assert!(progress.contains("bg-apple-yellow/10"));
    assert!(success.contains("bg-emerald-500/10"));
    assert!(error.contains("bg-red-500/10"));
}



#[test]
fn global_notifications_replace_and_clear_by_identity() {
    let mut center = NotificationCenter::new();
    center.show("Saving...".to_string(), NotificationTone::Progress);
    let first = center.current().unwrap();

    assert_eq!(first.message, "Saving...");
    assert_eq!(first.tone, NotificationTone::Progress);

    center.show("Backup exported".to_string(), NotificationTone::Success);
    let second = center.current().unwrap();

    assert_eq!(second.message, "Backup exported");
    assert_eq!(second.tone, NotificationTone::Success);
    assert_ne!(first.id, second.id);

    center.clear(first.id);
    assert!(center.current().is_some());

    center.clear(second.id);
    assert!(center.current().is_none());
}

#[test]
fn save_notifications_do_not_replace_domain_notifications() {
    let mut center = NotificationCenter::new();
    center.show_save("Saving...".to_string(), NotificationTone::Progress);
    assert_eq!(center.current().unwrap().message, "Saving...");

    center.show_save("Saved".to_string(), NotificationTone::Success);
    assert_eq!(center.current().unwrap().message, "Saved");

    center.show("Backup imported".to_string(), NotificationTone::Success);
    let backup = center.current().unwrap();

    center.show_save("Saving...".to_string(), NotificationTone::Progress);
    assert_eq!(center.current().unwrap(), backup);

    center.show_save("Saved".to_string(), NotificationTone::Success);
    assert_eq!(center.current().unwrap(), backup);
}

#[test]
fn notification_identities_count_up_from_one() {
    let mut center = NotificationCenter::new();
    assert!(center.current().is_none());
    assert_eq!(center.show("One".to_string(), NotificationTone::Error), 1);
    assert_eq!(center.show("Two".to_string(), NotificationTone::Error), 2);
    assert!(nota_core::notifications::is_save_notification("Saved"));
    assert!(!nota_core::notifications::is_save_notification("Saved!"));
}

#[test]
fn save_status_reads_and_notifies_by_its_own_messages() {
    assert_eq!(nota_core::notifications::save_status_notice(nota_core::storage::SaveStatus::Saving), ("Saving...", NotificationTone::Progress));
    assert_eq!(nota_core::notifications::save_status_notice(nota_core::storage::SaveStatus::Saved), ("Saved", NotificationTone::Success));
}
