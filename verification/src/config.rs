//! The run configuration and the rules that it must meet before a run
//! starts.

use vstd::prelude::*;
use crate::genotype::UNIT;

verus! {

/// The generations of a run are counted in 32 bits: the decay of the
/// efficiency weight squares the count.
pub const MAX_GENERATIONS: usize = 0xFFFF_FFFF;

/// The message shown when no API key is configured.
pub const MISSING_KEY_MESSAGE: &'static str =
    "No API key found. Set EMAS_API_KEY, GOOGLE_API_KEY, or OPENAI_API_KEY \
                 in your environment or .env file, or pass --api-key on the command line.";

/// The model providers that a run can call.
#[derive(Clone, Copy, Debug, PartialEq, Eq, Structural)]
pub enum Provider {
    Openai,
    Google,
}

impl Provider {
    /// The name under which the provider is shown.
    pub fn label(&self) -> (r: &'static str)
        ensures
            r@ == (match *self {
                Provider::Openai => "OpenAI"@,
                Provider::Google => "Google Gemini"@,
            }),
    {
        match self {
            Provider::Openai => "OpenAI",
            Provider::Google => "Google Gemini",
        }
    }

    /// The endpoint that is called when none is configured.
    pub fn default_base_url(&self) -> (r: &'static str)
        ensures
            r@ == (match *self {
                Provider::Openai => "https://api.openai.com/v1"@,
                Provider::Google => "https://generativelanguage.googleapis.com/v1beta"@,
            }),
    {
        match self {
            Provider::Openai => "https://api.openai.com/v1",
            Provider::Google => "https://generativelanguage.googleapis.com/v1beta",
        }
    }

    /// The model that is called when none is configured.
    pub fn default_model(&self) -> (r: &'static str)
        ensures
            r@ == (match *self {
                Provider::Openai => "gpt-4o-mini"@,
                Provider::Google => "gemini-2.0-flash-lite"@,
            }),
    {
        match self {
            Provider::Openai => "gpt-4o-mini",
            Provider::Google => "gemini-2.0-flash-lite",
        }
    }
}

/// Why a configuration is refused.
#[derive(Clone, Copy, Debug, PartialEq, Eq, Structural)]
pub enum ConfigError {
    /// Fewer than two teams.
    PopulationTooSmall,
    /// No agent in a team.
    TeamSizeZero,
    /// A mutation rate above one.
    MutationRateOutOfRange,
    /// A fitness threshold below one or above ten.
    ThresholdOutOfRange,
    /// A fitness weight above one.
    WeightOutOfRange,
    /// No API key.
    MissingApiKey,
    /// More generations than the run can count.
    TooManyGenerations,
}

impl ConfigError {
    /// The message shown for the error.
    pub open spec fn message_text(self) -> Seq<char> {
        match self {
            ConfigError::PopulationTooSmall => "Population size must be at least 2"@,
            ConfigError::TeamSizeZero => "Team size must be at least 1"@,
            ConfigError::MutationRateOutOfRange => "Mutation rate must be between 0.0 and 1.0"@,
            ConfigError::ThresholdOutOfRange => "Fitness threshold must be between 1.0 and 10.0"@,
            ConfigError::WeightOutOfRange => "Fitness weights must be between 0.0 and 1.0"@,
            ConfigError::MissingApiKey => MISSING_KEY_MESSAGE@,
            ConfigError::TooManyGenerations => "Generations must be below 4294967296"@,
        }
    }

    /// The message shown for the error.
    pub fn message(&self) -> (r: &'static str)
        ensures
            r@ == self.message_text(),
    {
        match self {
            ConfigError::PopulationTooSmall => "Population size must be at least 2",
            ConfigError::TeamSizeZero => "Team size must be at least 1",
            ConfigError::MutationRateOutOfRange => "Mutation rate must be between 0.0 and 1.0",
            ConfigError::ThresholdOutOfRange => "Fitness threshold must be between 1.0 and 10.0",
            ConfigError::WeightOutOfRange => "Fitness weights must be between 0.0 and 1.0",
            ConfigError::MissingApiKey => MISSING_KEY_MESSAGE,
            ConfigError::TooManyGenerations => "Generations must be below 4294967296",
        }
    }
}

/// The number of teams that survive a generation unchanged: two fifths of
/// the population, rounded up, at least one and at most all but one.
pub open spec fn elite_count_of(population: nat) -> nat {
    let wanted = (2 * population + 4) / 5;
    let at_least_one = if wanted < 1 {
        1
    } else {
        wanted
    };
    if at_least_one > population - 1 {
        (population - 1) as nat
    } else {
        at_least_one
    }
}

/// In a population of at least two teams some team survives and some
/// team is replaced: the elite count is at least one and at most the
/// population less one.
pub proof fn law_elite_count_is_within(population: nat)
    requires
        population >= 2,
    ensures
        1 <= elite_count_of(population) <= population - 1,
{
}

/// The number of teams that survive a generation unchanged.
pub fn elite_count_for(population: usize) -> (r: usize)
    requires
        population >= 2,
    ensures
        r == elite_count_of(population as nat),
        1 <= r <= population - 1,
{
    let wanted = 2 * (population / 5) + (2 * (population % 5) + 4) / 5;
    let at_least_one = if wanted < 1 {
        1
    } else {
        wanted
    };
    if at_least_one > population - 1 {
        population - 1
    } else {
        at_least_one
    }
}

/// The settings of one run. Thresholds, rates and weights are in
/// millionths.
#[derive(Debug)]
pub struct Config {
    pub provider: Provider,
    pub api_base_url: String,
    pub api_key: String,
    pub model: String,
    pub population_size: usize,
    pub team_size: usize,
    pub max_generations: usize,
    pub fitness_threshold: u32,
    pub mutation_rate: u32,
    pub elite_count: usize,
    pub max_tokens: u32,
    pub quality_weight: u32,
    pub consistency_weight: u32,
    pub efficiency_weight: u32,
    pub judge_provider: Provider,
    pub judge_api_base_url: String,
    pub judge_api_key: String,
    pub judge_model: String,
}

impl Clone for Config {
    fn clone(&self) -> (r: Self)
        ensures
            r == *self,
    {
        Config {
            provider: self.provider,
            api_base_url: self.api_base_url.clone(),
            api_key: self.api_key.clone(),
            model: self.model.clone(),
            population_size: self.population_size,
            team_size: self.team_size,
            max_generations: self.max_generations,
            fitness_threshold: self.fitness_threshold,
            mutation_rate: self.mutation_rate,
            elite_count: self.elite_count,
            max_tokens: self.max_tokens,
            quality_weight: self.quality_weight,
            consistency_weight: self.consistency_weight,
            efficiency_weight: self.efficiency_weight,
            judge_provider: self.judge_provider,
            judge_api_base_url: self.judge_api_base_url.clone(),
            judge_api_key: self.judge_api_key.clone(),
            judge_model: self.judge_model.clone(),
        }
    }
}

impl Config {
    /// The first rule that the settings break, if any, in the order in which
    /// the rules are checked.
    pub open spec fn first_error(&self) -> Option<ConfigError> {
        if self.population_size < 2 {
            Some(ConfigError::PopulationTooSmall)
        } else if self.team_size < 1 {
            Some(ConfigError::TeamSizeZero)
        } else if self.mutation_rate > UNIT {
            Some(ConfigError::MutationRateOutOfRange)
        } else if self.fitness_threshold < UNIT || self.fitness_threshold > 10 * UNIT {
            Some(ConfigError::ThresholdOutOfRange)
        } else if self.quality_weight > UNIT || self.consistency_weight > UNIT
            || self.efficiency_weight > UNIT {
            Some(ConfigError::WeightOutOfRange)
        } else if self.api_key@.len() == 0 {
            Some(ConfigError::MissingApiKey)
        } else if self.max_generations > MAX_GENERATIONS {
            Some(ConfigError::TooManyGenerations)
        } else {
            None
        }
    }

    /// Whether a run can start from the settings: no rule is broken and the
    /// elite count is the one that the population size gives.
    pub open spec fn valid(&self) -> bool {
        &&& self.first_error() is None
        &&& self.elite_count == elite_count_of(self.population_size as nat)
    }

    /// Checks the settings and fills in the elite count. The settings come
    /// back unchanged but for that count, or the first broken rule is named.
    pub fn validate(self) -> (r: Result<Config, ConfigError>)
        ensures
            match r {
                Ok(config) => {
                    &&& self.first_error() is None
                    &&& config.valid()
                    &&& config == (Config {
                        elite_count: elite_count_of(self.population_size as nat) as usize,
                        ..self
                    })
                },
                Err(e) => self.first_error() == Some(e),
            },
    {
        if self.population_size < 2 {
            return Err(ConfigError::PopulationTooSmall);
        }
        if self.team_size < 1 {
            return Err(ConfigError::TeamSizeZero);
        }
        if self.mutation_rate > UNIT {
            return Err(ConfigError::MutationRateOutOfRange);
        }
        if self.fitness_threshold < UNIT || self.fitness_threshold > 10 * UNIT {
            return Err(ConfigError::ThresholdOutOfRange);
        }
        if self.quality_weight > UNIT || self.consistency_weight > UNIT || self.efficiency_weight
            > UNIT {
            return Err(ConfigError::WeightOutOfRange);
        }
        if self.api_key.as_str().is_empty() {
            return Err(ConfigError::MissingApiKey);
        }
        if self.max_generations > MAX_GENERATIONS {
            return Err(ConfigError::TooManyGenerations);
        }
        let mut config = self;
        config.elite_count = elite_count_for(config.population_size);
        Ok(config)
    }
}

} // verus!
