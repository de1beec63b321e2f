use vstd::prelude::*;
use crate::emoji::{stripped, RegexPatterns};
use crate::mean_length::MeanLength;
use crate::reg_date::RegDate;

verus! {

/// How a numeric option is offered for editing: its name, the range it may
/// take and the step between two values.
pub struct TextFieldDescriptor {
    pub name: String,
    pub min: u32,
    pub max: u32,
    pub step: u32,
}

impl TextFieldDescriptor {
    /// The descriptor has exactly this name, range and step.
    pub open spec fn describes(self, name: Seq<char>, min: u32, max: u32, step: u32) -> bool {
        &&& self.name@ == name
        &&& self.min == min
        &&& self.max == max
        &&& self.step == step
    }

    /// The field for the delay under which an author posts too fast.
    pub fn avg_time_threshold() -> (field: TextFieldDescriptor)
        ensures
            field.describes("avg_time_threshold"@, 1, 120000, 1),
    {
        TextFieldDescriptor {
            name: "avg_time_threshold".to_string(),
            min: 1,
            max: 120000,
            step: 1,
        }
    }

    /// The field for the number of messages before the delay is judged.
    pub fn avg_time_min_message_count() -> (field: TextFieldDescriptor)
        ensures
            field.describes("avg_time_min_message_count"@, 2, 99, 1),
    {
        TextFieldDescriptor {
            name: "avg_time_min_message_count".to_string(),
            min: 2,
            max: 99,
            step: 1,
        }
    }

    /// The field for the number of similar messages that is too many.
    pub fn similarity_message_count() -> (field: TextFieldDescriptor)
        ensures
            field.describes("similarity_message_count"@, 2, 99, 1),
    {
        TextFieldDescriptor {
            name: "similarity_message_count".to_string(),
            min: 2,
            max: 99,
            step: 1,
        }
    }

    /// The field for the length from which a message is compared with earlier ones.
    pub fn similarity_min_message_length() -> (field: TextFieldDescriptor)
        ensures
            field.describes("similarity_min_message_length"@, 1, 300, 1),
    {
        TextFieldDescriptor {
            name: "similarity_min_message_length".to_string(),
            min: 1,
            max: 300,
            step: 1,
        }
    }

    /// The field for the mean length from which messages are too long.
    pub fn avg_length_threshold() -> (field: TextFieldDescriptor)
        ensures
            field.describes("avg_length_threshold"@, 1, 300, 1),
    {
        TextFieldDescriptor {
            name: "avg_length_threshold".to_string(),
            min: 1,
            max: 300,
            step: 1,
        }
    }

    /// The field for the number of messages before the mean length is judged.
    pub fn avg_length_message_count() -> (field: TextFieldDescriptor)
        ensures
            field.describes("avg_length_message_count"@, 0, 99, 1),
    {
        TextFieldDescriptor {
            name: "avg_length_message_count".to_string(),
            min: 0,
            max: 99,
            step: 1,
        }
    }

    /// The field for the year of the earliest registration date that counts as new.
    pub fn min_reg_date_year() -> (field: TextFieldDescriptor)
        ensures
            field.describes("min_reg_date_year"@, 2000, 2100, 1),
    {
        TextFieldDescriptor {
            name: "min_reg_date_year".to_string(),
            min: 2000,
            max: 2100,
            step: 1,
        }
    }

    /// The field for the month of the earliest registration date that counts as new.
    pub fn min_reg_date_month() -> (field: TextFieldDescriptor)
        ensures
            field.describes("min_reg_date_month"@, 1, 12, 1),
    {
        TextFieldDescriptor {
            name: "min_reg_date_month".to_string(),
            min: 1,
            max: 12,
            step: 1,
        }
    }

    /// The field for the day of the earliest registration date that counts as new.
    pub fn min_reg_date_day() -> (field: TextFieldDescriptor)
        ensures
            field.describes("min_reg_date_day"@, 1, 31, 1),
    {
        TextFieldDescriptor {
            name: "min_reg_date_day".to_string(),
            min: 1,
            max: 31,
            step: 1,
        }
    }
}

/// The thresholds of a [`DetectorParams`], as contracts speak of them.
pub struct Policy {
    pub avg_time_threshold: u32,
    pub avg_time_min_message_count: u32,
    pub similarity_message_count: u32,
    pub similarity_min_message_length: u32,
    pub avg_length_threshold: u32,
    pub avg_length_message_count: u32,
    pub min_reg_date: RegDate,
}

impl Policy {
    /// An author posts too fast: the check is on, the mean delay is not zero
    /// and lies under the threshold, and enough messages were counted.
    pub open spec fn is_too_fast(self, current_delay: u32, sent_messages_count: u32) -> bool {
        &&& self.avg_time_threshold != 0
        &&& current_delay != 0
        &&& current_delay < self.avg_time_threshold
        &&& sent_messages_count >= self.avg_time_min_message_count
    }

    /// An author's messages are too long: the check is on, enough messages
    /// were counted, and their mean length reaches the threshold.
    pub open spec fn messages_are_too_long(
        self,
        mean: MeanLength,
        sent_messages_count: u32,
    ) -> bool {
        &&& self.avg_length_message_count != 0
        &&& sent_messages_count >= self.avg_length_message_count
        &&& mean.reaches(self.avg_length_threshold)
    }

    /// A message was repeated too often.
    pub open spec fn sent_too_many_similar_messages(self, similar_messages_count: u32) -> bool {
        similar_messages_count >= self.similarity_message_count
    }

    /// A message of this length is compared with earlier ones.
    pub open spec fn should_check_message(self, message_len: nat) -> bool {
        message_len != 0 && message_len >= self.similarity_min_message_length
    }

    /// An account registered on this date is new: the date is the cutoff or
    /// lies after it.
    pub open spec fn acc_too_young(self, reg_date: RegDate) -> bool {
        reg_date.is_on_or_after(self.min_reg_date)
    }
}

/// The thresholds of the detector and the pattern that cleans messages.
/// A value is made as a whole and never changed.
pub struct DetectorParams {
    avg_time_threshold: u32,
    avg_time_min_message_count: u32,
    similarity_message_count: u32,
    similarity_min_message_length: u32,
    avg_length_threshold: u32,
    avg_length_message_count: u32,
    min_reg_date: RegDate,
    regex_patterns: RegexPatterns,
}

impl View for DetectorParams {
    type V = Policy;

    closed spec fn view(&self) -> Policy {
        Policy {
            avg_time_threshold: self.avg_time_threshold,
            avg_time_min_message_count: self.avg_time_min_message_count,
            similarity_message_count: self.similarity_message_count,
            similarity_min_message_length: self.similarity_min_message_length,
            avg_length_threshold: self.avg_length_threshold,
            avg_length_message_count: self.avg_length_message_count,
            min_reg_date: self.min_reg_date,
        }
    }
}

impl DetectorParams {
    /// The thresholds that a detector starts with.
    pub open spec fn default_policy() -> Policy {
        Policy {
            avg_time_threshold: 2000,
            avg_time_min_message_count: 3,
            similarity_message_count: 3,
            similarity_min_message_length: 10,
            avg_length_threshold: 15,
            avg_length_message_count: 5,
            min_reg_date: RegDate { year: 2020, month: 10, day: 1 },
        }
    }

    /// Parameters with the default thresholds.
    pub fn get_default() -> (params: Self)
        ensures
            params@ == Self::default_policy(),
    {
        let patterns = RegexPatterns::new();
        DetectorParams {
            avg_time_threshold: 2000,
            avg_time_min_message_count: 3,
            similarity_message_count: 3,
            similarity_min_message_length: 10,
            avg_length_threshold: 15,
            avg_length_message_count: 5,
            min_reg_date: RegDate::default(),
            regex_patterns: patterns,
        }
    }

    /// Parameters with the given thresholds.
    pub fn new(
        avg_time_threshold: u32,
        avg_time_min_message_count: u32,
        similarity_message_count: u32,
        similarity_min_message_length: u32,
        avg_length_threshold: u32,
        avg_length_message_count: u32,
        min_reg_date: RegDate,
    ) -> (params: Self)
        ensures
            params@ == (Policy {
                avg_time_threshold,
                avg_time_min_message_count,
                similarity_message_count,
                similarity_min_message_length,
                avg_length_threshold,
                avg_length_message_count,
                min_reg_date,
            }),
    {
        let patterns = RegexPatterns::new();
        DetectorParams {
            avg_time_threshold,
            avg_time_min_message_count,
            similarity_message_count,
            similarity_min_message_length,
            avg_length_threshold,
            avg_length_message_count,
            min_reg_date,
            regex_patterns: patterns,
        }
    }

    /// Whether an author with this mean delay and this many messages posts
    /// too fast.
    pub fn is_too_fast(&self, current_delay: u32, sent_messages_count: u32) -> (b: bool)
        ensures
            b == self@.is_too_fast(current_delay, sent_messages_count),
    {
        self.avg_time_threshold != 0 && current_delay != 0 && current_delay
            < self.avg_time_threshold && sent_messages_count >= self.avg_time_min_message_count
    }

    /// Whether a message that was seen this often was repeated too often.
    pub fn sent_too_many_similar_messages(&self, similar_messages_count: u32) -> (b: bool)
        ensures
            b == self@.sent_too_many_similar_messages(similar_messages_count),
    {
        similar_messages_count >= self.similarity_message_count
    }

    /// Whether an author with this mean length and this many messages writes
    /// messages that are too long.
    pub fn messages_are_too_long(
        &self,
        current_average_message_length: MeanLength,
        sent_messages_count: u32,
    ) -> (b: bool)
        ensures
            b == self@.messages_are_too_long(current_average_message_length, sent_messages_count),
    {
        self.avg_length_message_count != 0 && sent_messages_count >= self.avg_length_message_count
            && current_average_message_length.at_least(self.avg_length_threshold)
    }

    /// Whether a message of this many characters is compared with earlier
    /// ones.
    pub fn should_check_message(&self, message_len: u32) -> (b: bool)
        ensures
            b == self@.should_check_message(message_len as nat),
    {
        message_len != 0 && message_len >= self.similarity_min_message_length
    }

    /// Whether an account registered on `reg_date` is new.
    pub fn acc_too_young(&self, reg_date: &RegDate) -> (b: bool)
        ensures
            b == self@.acc_too_young(*reg_date),
    {
        *reg_date >= self.min_reg_date
    }

    /// `message` without its decorative characters.
    pub fn strip_message_from_emoji(&self, message: &str) -> (cleaned: String)
        ensures
            cleaned@ == stripped(message@),
    {
        self.regex_patterns.clean_message(message)
    }

    /// A freshly compiled pattern.
    pub fn regex() -> RegexPatterns {
        RegexPatterns::new()
    }

    /// The value of `avg_time_threshold` and the field that offers it.
    pub fn avg_time_threshold(&self) -> (pair: (u32, TextFieldDescriptor))
        ensures
            pair.0 == self@.avg_time_threshold,
            pair.1.describes("avg_time_threshold"@, 1, 120000, 1),
    {
        (self.avg_time_threshold, TextFieldDescriptor::avg_time_threshold())
    }

    /// The value of `avg_time_min_message_count` and the field that offers it.
    pub fn avg_time_min_message_count(&self) -> (pair: (u32, TextFieldDescriptor))
        ensures
            pair.0 == self@.avg_time_min_message_count,
            pair.1.describes("avg_time_min_message_count"@, 2, 99, 1),
    {
        (self.avg_time_min_message_count, TextFieldDescriptor::avg_time_min_message_count())
    }

    /// The value of `similarity_message_count` and the field that offers it.
    pub fn similarity_message_count(&self) -> (pair: (u32, TextFieldDescriptor))
        ensures
            pair.0 == self@.similarity_message_count,
            pair.1.describes("similarity_message_count"@, 2, 99, 1),
    {
        (self.similarity_message_count, TextFieldDescriptor::similarity_message_count())
    }

    /// The value of `similarity_min_message_length` and the field that offers it.
    pub fn similarity_min_message_length(&self) -> (pair: (u32, TextFieldDescriptor))
        ensures
            pair.0 == self@.similarity_min_message_length,
            pair.1.describes("similarity_min_message_length"@, 1, 300, 1),
    {
        (self.similarity_min_message_length, TextFieldDescriptor::similarity_min_message_length())
    }

    /// The value of `avg_length_threshold` and the field that offers it.
    pub fn avg_length_threshold(&self) -> (pair: (u32, TextFieldDescriptor))
        ensures
            pair.0 == self@.avg_length_threshold,
            pair.1.describes("avg_length_threshold"@, 1, 300, 1),
    {
        (self.avg_length_threshold, TextFieldDescriptor::avg_length_threshold())
    }

    /// The value of `avg_length_message_count` and the field that offers it.
    pub fn avg_length_message_count(&self) -> (pair: (u32, TextFieldDescriptor))
        ensures
            pair.0 == self@.avg_length_message_count,
            pair.1.describes("avg_length_message_count"@, 0, 99, 1),
    {
        (self.avg_length_message_count, TextFieldDescriptor::avg_length_message_count())
    }

    /// The value of `min_reg_date_year` and the field that offers it.
    pub fn min_reg_date_year(&self) -> (pair: (u16, TextFieldDescriptor))
        ensures
            pair.0 == self@.min_reg_date.year,
            pair.1.describes("min_reg_date_year"@, 2000, 2100, 1),
    {
        (self.min_reg_date.year, TextFieldDescriptor::min_reg_date_year())
    }

    /// The value of `min_reg_date_month` and the field that offers it.
    pub fn min_reg_date_month(&self) -> (pair: (u8, TextFieldDescriptor))
        ensures
            pair.0 == self@.min_reg_date.month,
            pair.1.describes("min_reg_date_month"@, 1, 12, 1),
    {
        (self.min_reg_date.month, TextFieldDescriptor::min_reg_date_month())
    }

    /// The value of `min_reg_date_day` and the field that offers it.
    pub fn min_reg_date_day(&self) -> (pair: (u8, TextFieldDescriptor))
        ensures
            pair.0 == self@.min_reg_date.day,
            pair.1.describes("min_reg_date_day"@, 1, 31, 1),
    {
        (self.min_reg_date.day, TextFieldDescriptor::min_reg_date_day())
    }

    /// The earliest registration date that counts as new.
    pub fn min_reg_date_copy(&self) -> (date: RegDate)
        ensures
            date == self@.min_reg_date,
    {
        self.min_reg_date
    }
}

} // verus!
