use vstd::prelude::*;

verus! {

/// Standard recurrence presets offered by the event form.
#[derive(Debug, Clone, PartialEq, Eq)]
pub enum RecurrencePreset {
    DoesNotRepeat,
    Daily,
    /// Weekly on the same weekday as the start.
    WeeklyOnDay,
    /// Monday to Friday.
    Weekdays,
    Weekly,
    BiWeekly,
    Monthly,
    Yearly,
    /// A raw RRULE.
    Custom(String),
}

/// The label shown for each preset.
pub open spec fn preset_label(p: RecurrencePreset) -> Seq<char> {
    match p {
        RecurrencePreset::DoesNotRepeat => "Does not repeat"@,
        RecurrencePreset::Daily => "Every day"@,
        RecurrencePreset::WeeklyOnDay => "Every week (same day)"@,
        RecurrencePreset::Weekdays => "Every weekday (Mon-Fri)"@,
        RecurrencePreset::Weekly => "Every week"@,
        RecurrencePreset::BiWeekly => "Every 2 weeks"@,
        RecurrencePreset::Monthly => "Every month"@,
        RecurrencePreset::Yearly => "Every year"@,
        RecurrencePreset::Custom(_) => "Custom\u{2026}"@,
    }
}

impl RecurrencePreset {
    pub fn label(&self) -> (res: &'static str)
        ensures
            res@ == preset_label(*self),
    {
        match self {
            RecurrencePreset::DoesNotRepeat => "Does not repeat",
            RecurrencePreset::Daily => "Every day",
            RecurrencePreset::WeeklyOnDay => "Every week (same day)",
            RecurrencePreset::Weekdays => "Every weekday (Mon-Fri)",
            RecurrencePreset::Weekly => "Every week",
            RecurrencePreset::BiWeekly => "Every 2 weeks",
            RecurrencePreset::Monthly => "Every month",
            RecurrencePreset::Yearly => "Every year",
            RecurrencePreset::Custom(_) => "Custom\u{2026}",
        }
    }

    /// Every preset in display order; the custom one carries an empty rule.
    pub fn all() -> (res: Vec<RecurrencePreset>)
        ensures
            res.len() == 9,
            res[0] == RecurrencePreset::DoesNotRepeat,
            res[1] == RecurrencePreset::Daily,
            res[2] == RecurrencePreset::WeeklyOnDay,
            res[3] == RecurrencePreset::Weekdays,
            res[4] == RecurrencePreset::Weekly,
            res[5] == RecurrencePreset::BiWeekly,
            res[6] == RecurrencePreset::Monthly,
            res[7] == RecurrencePreset::Yearly,
            res[8] matches RecurrencePreset::Custom(s) && s@.len() == 0,
    {
        let mut v: Vec<RecurrencePreset> = Vec::new();
        v.push(RecurrencePreset::DoesNotRepeat);
        v.push(RecurrencePreset::Daily);
        v.push(RecurrencePreset::WeeklyOnDay);
        v.push(RecurrencePreset::Weekdays);
        v.push(RecurrencePreset::Weekly);
        v.push(RecurrencePreset::BiWeekly);
        v.push(RecurrencePreset::Monthly);
        v.push(RecurrencePreset::Yearly);
        v.push(RecurrencePreset::Custom(String::new()));
        v
    }
}

} // verus!
