use portfolio_pages::bookings::{
    booked_and_unbooked_days, booking_error_message, check_booking_dates, channel_error_message, overlap_warning,
    validate_booking_form, validate_channel_form, BookingFormError, BookingSpan, ChannelFormError,
    Moment, NumberEntry, EPOCH_DAY, MICROS_PER_DAY,
};
use portfolio_pages::dates::input_to_date;
use portfolio_pages::documents::{
    detect_file_type, document_icon, download_plan, is_image_type, is_sheet_type, is_video_type,
    note_excerpt, shorthand_name, single_sentence, DownloadSource,
};
use portfolio_pages::lists::{holds, toggle_in_list};
use portfolio_pages::notifications::{
    delivery_channels, notif_type_label, recipient_names, recipient_role_choices, recipients_summary, selectable_triggers, trigger_from_value,
    trigger_label, trigger_short, trigger_value, NotificationTrigger, NotificationType, Person,
};
use portfolio_pages::numbers::{decimal_text, parse_u32, parse_usize};
use portfolio_pages::ordering::{sort_by_keys, stable_order};
use portfolio_pages::roles::UserRole;
use portfolio_pages::text::{is_blank, optional_text, optional_trimmed, trimmed};

#[test]
fn trimming_matches_str_trim() {
    let samples = ["  padded  ", "\t\n tabbed \r\n", "none", "", "   ", "\u{3000}wide\u{2003}", "in ner"];
    for s in samples {
        assert_eq!(trimmed(s), s.trim());
        assert_eq!(is_blank(s), s.trim().is_empty());
    }
    assert_eq!(optional_text("  keep me "), Some("  keep me ".to_string()));
    assert_eq!(optional_text(" \t"), None);
    assert_eq!(optional_trimmed("  keep me "), Some("keep me".to_string()));
    assert_eq!(optional_trimmed(""), None);
}

#[test]
fn numbers_parse_like_from_str() {
    let samples = ["0", "42", "+7", "-1", "", "4294967295", "4294967296", "12a", " 3", "007"];
    for s in samples {
        assert_eq!(parse_u32(s), s.parse::<u32>().ok());
        assert_eq!(parse_usize(s), s.parse::<usize>().ok());
    }
    assert_eq!(decimal_text(0), "0");
    assert_eq!(decimal_text(1234567890), "1234567890");
    assert_eq!(decimal_text(u64::MAX), u64::MAX.to_string());
}

#[test]
fn document_icons_by_type() {
    assert_eq!(document_icon("PDF"), "📕");
    assert_eq!(document_icon("odt"), "📘");
    assert_eq!(document_icon("Xlsx"), "📗");
    assert_eq!(document_icon("pptx"), "📙");
    assert_eq!(document_icon("rs"), "📄");
    assert_eq!(document_icon("7z"), "🗜️");
    assert_eq!(document_icon("webp"), "🖼️");
    assert_eq!(document_icon("mkv"), "🎬");
    assert_eq!(document_icon("flac"), "🎵");
    assert_eq!(document_icon("exe"), "📎");
}

#[test]
fn file_types_from_names() {
    assert_eq!(detect_file_type("report.final.DOCX"), "docx");
    assert_eq!(detect_file_type("photo.JPeG"), "jpeg");
    assert_eq!(detect_file_type("archive.gz"), "gz");
    assert_eq!(detect_file_type("README"), "txt");
    assert_eq!(detect_file_type("trailing."), "txt");
    assert_eq!(detect_file_type("script.php"), "txt");
}

#[test]
fn short_names_and_sentences() {
    assert_eq!(shorthand_name("sixteen-bytes.ab"), "sixteen-bytes.ab");
    assert_eq!(shorthand_name("Inspection Report.pdf"), "Inspection Re...");
    assert_eq!(single_sentence("  One. Two.  "), "One....");
    assert_eq!(single_sentence("Only one?  "), "Only one?");
    assert_eq!(single_sentence("no end at all "), "no end at all");
    assert_eq!(single_sentence("   "), "");
}

#[test]
fn note_excerpts() {
    assert_eq!(note_excerpt("Short note"), "— Short note");
    let long = "The tenant reported a leak under the kitchen sink, which was fixed on Monday.";
    assert_eq!(note_excerpt(long), "— The tenant reported a leak under the kitchen sink, which");
    let unbroken = "x".repeat(70);
    assert_eq!(note_excerpt(&unbroken), format!("— {}", "x".repeat(60)));
}

#[test]
fn download_plans() {
    let p = download_plan("lease.pdf", "pdf", "https://files/lease.pdf", &None);
    assert_eq!(p.filename, "lease.pdf");
    assert!(matches!(p.source, DownloadSource::Link(ref u) if u == "https://files/lease.pdf"));
    let q = download_plan("notes.", "txt", "#", &Some("hello".to_string()));
    assert_eq!(q.filename, "notes..txt");
    assert!(matches!(q.source, DownloadSource::Contents(ref c) if c == "hello"));
    let r = download_plan("", "md", "", &None);
    assert_eq!(r.filename, ".md");
    assert!(matches!(r.source, DownloadSource::Contents(ref c) if c.is_empty()));
    assert_eq!(download_plan("README", "txt", "#", &None).filename, "README");
}

#[test]
fn viewer_kinds() {
    assert!(is_image_type("PNG"));
    assert!(is_image_type("tiff"));
    assert!(!is_image_type("pdf"));
    assert!(is_video_type("flv"));
    assert!(!is_video_type("mp3"));
    assert!(is_sheet_type("xlsx"));
    assert!(is_sheet_type("csv"));
    assert!(!is_sheet_type("XLSX"));
    assert!(!is_sheet_type("xls"));
}

#[test]
fn trigger_labels_and_values() {
    let price = NotificationTrigger::PriceChange { percentage: "12.5".to_string() };
    assert_eq!(trigger_label(&price), "Price change > 12.5%");
    assert_eq!(trigger_label(&NotificationTrigger::NoSales { days: 45 }), "No sales for 45 days");
    assert_eq!(trigger_label(&NotificationTrigger::Custom("Lease ends".to_string())), "Lease ends");
    assert_eq!(trigger_short(&price), "Price Change");
    assert_eq!(trigger_short(&NotificationTrigger::NoSales { days: 1 }), "No Sales");
    assert_eq!(notif_type_label(&NotificationType::Sms), "SMS");
    assert_eq!(notif_type_label(&NotificationType::InApp), "In-App");
    assert_eq!(trigger_value(&NotificationTrigger::Custom("Document Added".to_string())), "DocumentAdded");
    assert_eq!(trigger_value(&NotificationTrigger::Custom("Other".to_string())), "Custom");
    assert_eq!(trigger_from_value("NoSales"), NotificationTrigger::NoSales { days: 30 });
    assert_eq!(trigger_from_value("PriceChange"), NotificationTrigger::PriceChange { percentage: "10".to_string() });
    assert_eq!(trigger_from_value("DocumentUpdated"), NotificationTrigger::Custom("Document Updated".to_string()));
    assert_eq!(trigger_from_value("whatever"), NotificationTrigger::Sale);
    for t in selectable_triggers() {
        assert_eq!(trigger_from_value(trigger_value(&t)), t);
    }
}

#[test]
fn recipient_lines() {
    let people = vec![
        Person { id: 1, name: "Ann".to_string() },
        Person { id: 2, name: "Bob".to_string() },
        Person { id: 2, name: "Bea".to_string() },
    ];
    let names = recipient_names(&vec![2, 9, 1], &people);
    assert_eq!(names, vec!["Bob".to_string(), "Ann".to_string()]);
    assert_eq!(recipients_summary(&Vec::new(), &Vec::new()), "Just me");
    assert_eq!(recipients_summary(&names, &Vec::new()), "Users: Bob, Ann");
    assert_eq!(recipients_summary(&Vec::new(), &vec![UserRole::SeniorManager]), "Roles: Senior Manager");
    assert_eq!(
        recipients_summary(&names, &vec![UserRole::Owner, UserRole::Guest]),
        "Users: Bob, Ann · Roles: Owner, Guest"
    );
}

#[test]
fn booking_form_checks_in_order() {
    assert_eq!(validate_booking_form("", "2024-01-01", "2024-01-05", true), Err(BookingFormError::MissingFields));
    assert_eq!(validate_booking_form("Kim", "01/01/2024", "2024-01-05", true), Err(BookingFormError::InvalidStartDate));
    assert_eq!(validate_booking_form("Kim", "2024-01-01", "2024-02-30", true), Err(BookingFormError::InvalidEndDate));
    assert_eq!(validate_booking_form("Kim", "2024-01-05", "2024-01-05", true), Err(BookingFormError::EndNotAfterStart));
    assert_eq!(validate_booking_form("Kim", "2024-01-01", "2024-01-05", false), Err(BookingFormError::InvalidRate));
    assert_eq!(validate_booking_form("Kim", "2024-01-01", "2024-01-05", true), Ok((738886, 738890)));
    assert_eq!(booking_error_message(BookingFormError::EndNotAfterStart), "End date must be after start date");
    assert_eq!(overlap_warning(2), Some("Warning: this booking overlaps an existing reservation."));
    assert_eq!(overlap_warning(0), None);
}

#[test]
fn date_inputs() {
    assert_eq!(input_to_date(" 2024-01-01 "), Some(738886));
    assert_eq!(input_to_date(""), None);
    assert_eq!(input_to_date("2024-13-01"), None);
    assert_eq!(input_to_date("0001-01-01"), Some(1));
}

#[test]
fn channel_form_checks_in_order() {
    assert_eq!(validate_channel_form(NumberEntry::Negative, NumberEntry::Invalid, "x", "y"), Err(ChannelFormError::NegativeRate));
    assert_eq!(validate_channel_form(NumberEntry::Invalid, NumberEntry::Negative, "", ""), Err(ChannelFormError::InvalidRate));
    assert_eq!(validate_channel_form(NumberEntry::Empty, NumberEntry::Negative, "", ""), Err(ChannelFormError::NegativeCommission));
    assert_eq!(validate_channel_form(NumberEntry::NonNegative, NumberEntry::Invalid, "", ""), Err(ChannelFormError::InvalidCommission));
    assert_eq!(validate_channel_form(NumberEntry::Empty, NumberEntry::Empty, "two", ""), Err(ChannelFormError::InvalidMinimumNights));
    assert_eq!(validate_channel_form(NumberEntry::Empty, NumberEntry::Empty, "2", "-1"), Err(ChannelFormError::InvalidMaximumNights));
    assert_eq!(validate_channel_form(NumberEntry::Empty, NumberEntry::Empty, " 9 ", "3"), Err(ChannelFormError::MinimumExceedsMaximum));
    assert_eq!(validate_channel_form(NumberEntry::Empty, NumberEntry::NonNegative, " 2 ", "7"), Ok((Some(2), Some(7))));
    assert_eq!(validate_channel_form(NumberEntry::Empty, NumberEntry::Empty, "", "5"), Ok((None, Some(5))));
    assert_eq!(channel_error_message(ChannelFormError::MinimumExceedsMaximum), "Minimum nights cannot exceed maximum nights");
}

fn moment(day_offset: i64, hour: i64) -> Moment {
    let stamp = day_offset * MICROS_PER_DAY + hour * 3_600_000_000;
    Moment { stamp, day: day_offset + EPOCH_DAY }
}

#[test]
fn booked_days_in_the_year_ahead() {
    let now = moment(100, 12);
    let end = moment(465, 12);
    let bookings = vec![
        BookingSpan { start: moment(110, 15), end: moment(113, 10), cancelled: false },
        BookingSpan { start: moment(120, 15), end: moment(130, 10), cancelled: true },
        BookingSpan { start: moment(90, 15), end: moment(102, 10), cancelled: false },
        BookingSpan { start: moment(460, 15), end: moment(470, 10), cancelled: false },
        BookingSpan { start: moment(40, 15), end: moment(50, 10), cancelled: false },
    ];
    assert_eq!(booked_and_unbooked_days(&bookings, now, end), (3 + 2 + 5, 355));
    assert_eq!(booked_and_unbooked_days(&Vec::new(), now, end), (0, 365));
}

#[test]
fn list_toggles() {
    let mut list: Vec<u128> = vec![3, 5, 3];
    toggle_in_list(&mut list, 3);
    assert_eq!(list, vec![5]);
    toggle_in_list(&mut list, 7);
    assert_eq!(list, vec![5, 7]);
    assert!(holds(&list, &7));
    assert!(!holds(&list, &3));
    let mut channels = vec![NotificationType::Push];
    toggle_in_list(&mut channels, NotificationType::Email);
    toggle_in_list(&mut channels, NotificationType::Push);
    assert_eq!(channels, vec![NotificationType::Email]);
}

#[test]
fn stable_sorting() {
    let keys: Vec<i128> = vec![3, 1, 3, 2];
    assert_eq!(stable_order(&keys, false), vec![1, 3, 0, 2]);
    assert_eq!(stable_order(&keys, true), vec![0, 2, 3, 1]);
    let texts: Vec<Vec<char>> = vec!["pear".chars().collect(), "apple".chars().collect(), "app".chars().collect()];
    assert_eq!(stable_order(&texts, false), vec![2, 1, 0]);
    let sorted = sort_by_keys(vec!["c", "a", "b"], &vec![3i128, 1, 2], false);
    assert_eq!(sorted, vec!["a", "b", "c"]);
}

#[test]
fn booking_dates_once_read() {
    assert_eq!(check_booking_dates(None, Some(5), true), Err(BookingFormError::InvalidStartDate));
    assert_eq!(check_booking_dates(Some(5), None, true), Err(BookingFormError::InvalidEndDate));
    assert_eq!(check_booking_dates(Some(5), Some(4), true), Err(BookingFormError::EndNotAfterStart));
    assert_eq!(check_booking_dates(Some(5), Some(6), false), Err(BookingFormError::InvalidRate));
    assert_eq!(check_booking_dates(Some(5), Some(6), true), Ok((5, 6)));
}

#[test]
fn rule_choices() {
    assert_eq!(
        delivery_channels(),
        vec![NotificationType::InApp, NotificationType::Push, NotificationType::Email, NotificationType::Sms]
    );
    let roles = recipient_role_choices();
    assert_eq!(roles.len(), 6);
    assert_eq!(roles[5], UserRole::DocumentWorker);
    assert!(!roles.contains(&UserRole::Guest));
}
