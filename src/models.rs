//! The data model: raw records, normalized usage events, per-model totals,
//! plans, blocks and the analyzer's result.
use vstd::prelude::*;

verus! {

/// Token counts of one API call.
#[derive(Clone, Copy, Debug, PartialEq, Eq, Structural, Default)]
pub struct Usage {
    pub input_tokens: u64,
    pub output_tokens: u64,
    pub cache_creation_input_tokens: u64,
    pub cache_read_input_tokens: u64,
}

impl Usage {
    pub open spec fn total_spec(&self) -> int {
        self.input_tokens + self.output_tokens + self.cache_creation_input_tokens
            + self.cache_read_input_tokens
    }

    /// Sum of the four counts.
    pub fn total(&self) -> (r: u64)
        requires
            self.total_spec() <= u64::MAX,
        ensures
            r == self.total_spec(),
    {
        self.input_tokens + self.output_tokens + self.cache_creation_input_tokens
            + self.cache_read_input_tokens
    }
}

/// The `message` object of a raw record.
#[derive(Clone, Debug)]
pub struct Message {
    pub model: Option<String>,
    pub usage: Option<Usage>,
}

/// One raw log record, with its timestamp already read as milliseconds
/// since the Unix epoch (UTC).
#[derive(Clone, Debug)]
pub struct RawEntry {
    pub timestamp: i64,
    pub session_id: Option<String>,
    pub message: Option<Message>,
}

/// A normalized usage event. `timestamp` is in milliseconds since the Unix
/// epoch (UTC).
#[derive(Clone, Debug)]
pub struct Entry {
    pub timestamp: i64,
    pub session_id: String,
    pub model: String,
    pub usage: Usage,
}

/// The session identifier given to events that carry none.
pub open spec fn unknown_session() -> Seq<char> {
    "unknown"@
}

/// A raw record is a usage event when its message, the message's usage and
/// model are all present and the four counts are not all zero.
pub open spec fn is_usage_record(raw: RawEntry) -> bool {
    &&& raw.message is Some
    &&& raw.message.unwrap().usage is Some
    &&& raw.message.unwrap().model is Some
    &&& raw.message.unwrap().usage.unwrap().total_spec() > 0
}

/// `e` is the usage event of raw record `raw`: same time, model and usage,
/// and the record's session or "unknown".
pub open spec fn normalized_as(e: Entry, raw: RawEntry) -> bool {
    &&& e.wf()
    &&& e.timestamp == raw.timestamp
    &&& e.model == raw.message.unwrap().model.unwrap()
    &&& e.usage == raw.message.unwrap().usage.unwrap()
    &&& e.session_id@ == match raw.session_id {
        Some(s) => s@,
        None => unknown_session(),
    }
}

/// `es` are the usage events of `raws`, one per usage record, in order.
pub open spec fn normalizes(es: Seq<Entry>, raws: Seq<RawEntry>) -> bool
    decreases raws.len(),
{
    if raws.len() == 0 {
        es.len() == 0
    } else if is_usage_record(raws.last()) {
        es.len() > 0 && normalizes(es.drop_last(), raws.drop_last()) && normalized_as(es.last(), raws.last())
    } else {
        normalizes(es, raws.drop_last())
    }
}

/// Number of usage events among raw records.
pub open spec fn usage_record_count(raws: Seq<RawEntry>) -> nat
    decreases raws.len(),
{
    if raws.len() == 0 {
        0
    } else {
        usage_record_count(raws.drop_last()) + if is_usage_record(raws.last()) { 1nat } else { 0nat }
    }
}

impl Message {
    /// A copy of the message.
    pub fn duplicate(&self) -> (r: Message)
        ensures
            r == *self,
    {
        Message {
            model: match &self.model {
                Some(m) => Some(m.clone()),
                None => None,
            },
            usage: self.usage,
        }
    }
}

impl RawEntry {
    /// A copy of the record.
    pub fn duplicate(&self) -> (r: RawEntry)
        ensures
            r == *self,
    {
        RawEntry {
            timestamp: self.timestamp,
            session_id: match &self.session_id {
                Some(s) => Some(s.clone()),
                None => None,
            },
            message: match &self.message {
                Some(m) => Some(m.duplicate()),
                None => None,
            },
        }
    }
}

impl Entry {
    /// A usage event must carry at least one token.
    pub open spec fn wf(&self) -> bool {
        self.usage.total_spec() > 0
    }

    /// Normalizes a raw record; a record that is not a usage event gives
    /// `Err(())`. A missing session identifier becomes "unknown".
    pub fn try_from(raw: RawEntry) -> (r: Result<Entry, ()>)
        ensures
            r.is_ok() <==> is_usage_record(raw),
            r matches Ok(e) ==> normalized_as(e, raw),
    {
        let message = match raw.message {
            Some(m) => m,
            None => return Err(()),
        };
        let usage = match message.usage {
            Some(u) => u,
            None => return Err(()),
        };
        let model = match message.model {
            Some(m) => m,
            None => return Err(()),
        };
        if usage.input_tokens == 0 && usage.output_tokens == 0
            && usage.cache_creation_input_tokens == 0 && usage.cache_read_input_tokens == 0 {
            return Err(());
        }
        let session_id = match raw.session_id {
            Some(s) => s,
            None => String::from_str("unknown"),
        };
        Ok(Entry { timestamp: raw.timestamp, session_id, model, usage })
    }

    /// A copy of the event.
    pub fn duplicate(&self) -> (r: Entry)
        ensures
            r == *self,
    {
        Entry {
            timestamp: self.timestamp,
            session_id: self.session_id.clone(),
            model: self.model.clone(),
            usage: self.usage,
        }
    }
}

/// Accumulated usage of one model.
#[derive(Clone, Debug)]
pub struct ModelStats {
    pub model: String,
    pub input_tokens: u64,
    pub output_tokens: u64,
    pub cache_create_tokens: u64,
    pub cache_read_tokens: u64,
    pub call_count: u64,
}

impl ModelStats {
    pub open spec fn total_spec(&self) -> int {
        self.input_tokens + self.output_tokens + self.cache_create_tokens + self.cache_read_tokens
    }

    /// Empty totals for `model`.
    pub fn new(model: String) -> (r: ModelStats)
        ensures
            r.model == model,
            r.input_tokens == 0 && r.output_tokens == 0,
            r.cache_create_tokens == 0 && r.cache_read_tokens == 0,
            r.call_count == 0,
    {
        ModelStats {
            model,
            input_tokens: 0,
            output_tokens: 0,
            cache_create_tokens: 0,
            cache_read_tokens: 0,
            call_count: 0,
        }
    }

    /// Counts one more call with the given usage.
    pub fn add(&mut self, usage: &Usage)
        requires
            old(self).input_tokens + usage.input_tokens <= u64::MAX,
            old(self).output_tokens + usage.output_tokens <= u64::MAX,
            old(self).cache_create_tokens + usage.cache_creation_input_tokens <= u64::MAX,
            old(self).cache_read_tokens + usage.cache_read_input_tokens <= u64::MAX,
            old(self).call_count < u64::MAX,
        ensures
            final(self).model == old(self).model,
            final(self).input_tokens == old(self).input_tokens + usage.input_tokens,
            final(self).output_tokens == old(self).output_tokens + usage.output_tokens,
            final(self).cache_create_tokens == old(self).cache_create_tokens
                + usage.cache_creation_input_tokens,
            final(self).cache_read_tokens == old(self).cache_read_tokens
                + usage.cache_read_input_tokens,
            final(self).call_count == old(self).call_count + 1,
    {
        self.input_tokens = self.input_tokens + usage.input_tokens;
        self.output_tokens = self.output_tokens + usage.output_tokens;
        self.cache_create_tokens = self.cache_create_tokens + usage.cache_creation_input_tokens;
        self.cache_read_tokens = self.cache_read_tokens + usage.cache_read_input_tokens;
        self.call_count = self.call_count + 1;
    }

    /// Sum of the four token totals.
    pub fn total_tokens(&self) -> (r: u64)
        requires
            self.total_spec() <= u64::MAX,
        ensures
            r == self.total_spec(),
    {
        self.input_tokens + self.output_tokens + self.cache_create_tokens + self.cache_read_tokens
    }

    /// A copy of the totals.
    pub fn duplicate(&self) -> (r: ModelStats)
        ensures
            r == *self,
    {
        ModelStats {
            model: self.model.clone(),
            input_tokens: self.input_tokens,
            output_tokens: self.output_tokens,
            cache_create_tokens: self.cache_create_tokens,
            cache_read_tokens: self.cache_read_tokens,
            call_count: self.call_count,
        }
    }
}

/// Usage over a set of events, per model and in total.
#[derive(Clone, Debug)]
pub struct PeriodStats {
    /// Per-model totals, most expensive first.
    pub models: Vec<ModelStats>,
    pub total_tokens: u64,
    /// Total cost in cost units (10^-8 dollars).
    pub total_cost: u128,
    pub total_calls: u64,
    /// Number of distinct session identifiers.
    pub session_count: usize,
    pub period_label: String,
}

/// A five-hour session block. Times are milliseconds since the epoch.
#[derive(Clone, Debug)]
pub struct SessionBlock {
    /// Start of the hour of the block's first event.
    pub start_time: i64,
    /// Start plus five hours: when the block's usage resets.
    pub end_time: i64,
    /// Whether the block holds the instant of evaluation.
    pub is_active: bool,
    /// The block's events, in input order.
    pub entries: Vec<Entry>,
    /// Totals over the block's events.
    pub stats: PeriodStats,
}

/// Share of one tier in a block's limit cost.
#[derive(Clone, Debug)]
pub struct ModelDistribution {
    pub model: String,
    pub tier: String,
    pub calls: u64,
    /// Output tokens.
    pub tokens: u64,
    /// Limit cost, in cost units.
    pub cost: u128,
    /// Share of the block's limit cost, in hundredths of a percent.
    pub percent: u128,
}

/// Limits of a usage plan within one block.
#[derive(Clone, Debug)]
pub struct PlanLimits {
    pub name: String,
    /// Output tokens allowed per block.
    pub token_limit: u64,
    /// Cost allowed per block, in cost units (10^-8 dollars).
    pub cost_limit: u64,
    /// Calls allowed per block.
    pub message_limit: u64,
}

/// Whether `p` is shipped plan number `i`: Pro ($18), Max5 ($35) or
/// Max20 ($140).
pub open spec fn is_shipped_plan(p: PlanLimits, i: int) -> bool {
    if i == 0 {
        p.name@ == "Pro"@ && p.token_limit == 19_000 && p.cost_limit == 1_800_000_000
            && p.message_limit == 250
    } else if i == 1 {
        p.name@ == "Max5"@ && p.token_limit == 88_000 && p.cost_limit == 3_500_000_000
            && p.message_limit == 1_000
    } else {
        i == 2 && p.name@ == "Max20"@ && p.token_limit == 220_000 && p.cost_limit == 14_000_000_000
            && p.message_limit == 2_000
    }
}

/// The shipped plans: Pro, Max5 and Max20.
pub fn get_plans() -> (r: Vec<PlanLimits>)
    ensures
        r.len() == 3,
        forall|i: int| 0 <= i < 3 ==> is_shipped_plan(#[trigger] r[i], i),
{
    let mut r: Vec<PlanLimits> = Vec::new();
    r.push(PlanLimits {
        name: String::from_str("Pro"),
        token_limit: 19_000,
        cost_limit: 1_800_000_000,
        message_limit: 250,
    });
    r.push(PlanLimits {
        name: String::from_str("Max5"),
        token_limit: 88_000,
        cost_limit: 3_500_000_000,
        message_limit: 1_000,
    });
    r.push(PlanLimits {
        name: String::from_str("Max20"),
        token_limit: 220_000,
        cost_limit: 14_000_000_000,
        message_limit: 2_000,
    });
    r
}

/// The analyzer's view of the active block. Times are milliseconds since
/// the epoch; costs are in cost units (10^-8 dollars); percentages are in
/// hundredths of a percent, rounded down.
#[derive(Clone, Copy, Debug, PartialEq, Eq, Structural)]
pub struct CurrentBlockInfo {
    pub block_start: Option<i64>,
    /// End of the block: when its usage resets.
    pub reset_time: Option<i64>,
    pub secs_until_reset: i64,
    /// Cost of input, output and cache-creation tokens.
    pub limit_cost: u128,
    /// Output tokens.
    pub limit_tokens: u64,
    /// Number of calls.
    pub limit_messages: u64,
    /// Cost of all four token categories.
    pub real_cost: u128,
    /// All four token categories.
    pub real_tokens: u64,
    pub cost_percent: u128,
    pub tokens_percent: u128,
    pub messages_percent: u128,
    /// Output tokens per minute, in thousandths of a token.
    pub tokens_per_min: u128,
    /// Limit cost per minute, in cost units.
    pub cost_per_min: u128,
    /// Time over which the rates are taken, in milliseconds.
    pub active_millis: u64,
    /// Predicted instant at which the token limit is reached.
    pub tokens_exhausted_at: Option<i64>,
    /// Predicted instant at which the cost limit is reached.
    pub cost_exhausted_at: Option<i64>,
    pub is_active: bool,
}

/// The all-zero analysis.
pub open spec fn empty_info() -> CurrentBlockInfo {
    CurrentBlockInfo {
        block_start: None,
        reset_time: None,
        secs_until_reset: 0,
        limit_cost: 0,
        limit_tokens: 0,
        limit_messages: 0,
        real_cost: 0,
        real_tokens: 0,
        cost_percent: 0,
        tokens_percent: 0,
        messages_percent: 0,
        tokens_per_min: 0,
        cost_per_min: 0,
        active_millis: 0,
        tokens_exhausted_at: None,
        cost_exhausted_at: None,
        is_active: false,
    }
}

impl CurrentBlockInfo {
    /// The all-zero result given when no block is active.
    pub fn empty() -> (r: CurrentBlockInfo)
        ensures
            r == empty_info(),
    {
        CurrentBlockInfo {
            block_start: None,
            reset_time: None,
            secs_until_reset: 0,
            limit_cost: 0,
            limit_tokens: 0,
            limit_messages: 0,
            real_cost: 0,
            real_tokens: 0,
            cost_percent: 0,
            tokens_percent: 0,
            messages_percent: 0,
            tokens_per_min: 0,
            cost_per_min: 0,
            active_millis: 0,
            tokens_exhausted_at: None,
            cost_exhausted_at: None,
            is_active: false,
        }
    }
}

} // verus!
