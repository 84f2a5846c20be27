//! Deterministic context-window accounting.
//!
//! Token estimation counts whitespace-separated words rather than running a
//! model tokenizer; callers with exact counts pass them to
//! [`ContextBudget::add_usage`].

use vstd::prelude::*;

use crate::text::{chars_of, count_words, words};

verus! {

/// A non-negative token count.
#[derive(Clone, Copy, Debug, Default, Eq, Ord, PartialEq, Structural, PartialOrd)]
pub struct TokenCount(pub usize);

/// Tracks prompt usage while reserving room for the model response.
#[derive(Clone, Copy, Debug, Eq, PartialEq, Structural)]
pub struct ContextBudget {
    context_window: TokenCount,
    reserved_response_tokens: TokenCount,
    used_tokens: TokenCount,
}

/// A request for more tokens than a budget can give.
#[derive(Clone, Copy, Debug, Eq, PartialEq, Structural)]
pub struct ContextBudgetError {
    pub requested: TokenCount,
    pub available: TokenCount,
}

/// `a - b`, or zero when `b > a` (`usize::saturating_sub`).
pub open spec fn sat_sub(a: int, b: int) -> int {
    if a >= b {
        a - b
    } else {
        0
    }
}

impl View for ContextBudget {
    /// Window, reservation and usage, in tokens.
    type V = (nat, nat, nat);

    open spec fn view(&self) -> (nat, nat, nat) {
        (self.window(), self.reserved(), self.used())
    }
}

/// A budget after charging `tokens`: usage grows when the tokens fit in what
/// is available, and nothing changes otherwise.
pub open spec fn charged(b: (nat, nat, nat), tokens: nat) -> (nat, nat, nat) {
    if tokens <= sat_sub(sat_sub(b.0 as int, b.1 as int), b.2 as int) {
        (b.0, b.1, b.2 + tokens)
    } else {
        b
    }
}

/// A budget with its usage cleared.
pub open spec fn cleared(b: (nat, nat, nat)) -> (nat, nat, nat) {
    (b.0, b.1, 0)
}

impl ContextBudget {
    pub closed spec fn window(&self) -> nat {
        self.context_window.0 as nat
    }

    pub closed spec fn reserved(&self) -> nat {
        self.reserved_response_tokens.0 as nat
    }

    pub closed spec fn used(&self) -> nat {
        self.used_tokens.0 as nat
    }

    /// Tokens still free: window minus reservation minus usage, floored at zero.
    pub open spec fn available(&self) -> nat {
        sat_sub(sat_sub(self.window() as int, self.reserved() as int), self.used() as int) as nat
    }

    /// The usable (non-reserved) part of the window.
    pub open spec fn capacity(&self) -> nat {
        sat_sub(self.window() as int, self.reserved() as int) as nat
    }

    /// A budget with nothing used yet.
    pub fn new(context_window: usize, reserved_response_tokens: usize) -> (b: Self)
        ensures
            b.window() == context_window,
            b.reserved() == reserved_response_tokens,
            b.used() == 0,
    {
        ContextBudget {
            context_window: TokenCount(context_window),
            reserved_response_tokens: TokenCount(reserved_response_tokens),
            used_tokens: TokenCount(0),
        }
    }

    pub fn context_window(&self) -> (t: TokenCount)
        ensures
            t.0 == self.window(),
    {
        self.context_window
    }

    pub fn reserved_response_tokens(&self) -> (t: TokenCount)
        ensures
            t.0 == self.reserved(),
    {
        self.reserved_response_tokens
    }

    pub fn used_tokens(&self) -> (t: TokenCount)
        ensures
            t.0 == self.used(),
    {
        self.used_tokens
    }

    pub fn available_tokens(&self) -> (t: TokenCount)
        ensures
            t.0 == self.available(),
    {
        let cap = if self.context_window.0 >= self.reserved_response_tokens.0 {
            self.context_window.0 - self.reserved_response_tokens.0
        } else {
            0
        };
        let free = if cap >= self.used_tokens.0 {
            cap - self.used_tokens.0
        } else {
            0
        };
        TokenCount(free)
    }

    /// The usable (non-reserved) part of the window; usage percentages are
    /// taken against it.
    pub fn usage_capacity(&self) -> (t: TokenCount)
        ensures
            t.0 == self.capacity(),
    {
        if self.context_window.0 >= self.reserved_response_tokens.0 {
            TokenCount(self.context_window.0 - self.reserved_response_tokens.0)
        } else {
            TokenCount(0)
        }
    }

    pub fn can_fit(&self, tokens: usize) -> (r: bool)
        ensures
            r == (tokens <= self.available()),
    {
        tokens <= self.available_tokens().0
    }

    /// Adds usage when it fits; otherwise reports what was free and changes nothing.
    pub fn add_usage(&mut self, tokens: usize) -> (r: Result<(), ContextBudgetError>)
        ensures
            final(self).window() == old(self).window(),
            final(self).reserved() == old(self).reserved(),
            tokens <= old(self).available() ==> r is Ok && final(self).used() == old(self).used()
                + tokens,
            tokens > old(self).available() ==> r == Err::<(), ContextBudgetError>(
                ContextBudgetError {
                    requested: TokenCount(tokens),
                    available: TokenCount(old(self).available() as usize),
                },
            ) && final(self).used() == old(self).used(),
    {
        if self.can_fit(tokens) {
            self.used_tokens = TokenCount(self.used_tokens.0 + tokens);
            Ok(())
        } else {
            Err(ContextBudgetError { requested: TokenCount(tokens), available: self.available_tokens() })
        }
    }

    /// Accounts for a user's prompt by its estimated token count.
    pub fn account_user_prompt(&mut self, prompt: &str) -> (r: Result<(), ContextBudgetError>)
        ensures
            final(self).window() == old(self).window(),
            final(self).reserved() == old(self).reserved(),
            words(prompt@).len() <= old(self).available() ==> r is Ok && final(self).used()
                == old(self).used() + words(prompt@).len(),
            words(prompt@).len() > old(self).available() ==> r is Err && final(self).used()
                == old(self).used(),
    {
        let t = Self::estimate_tokens(prompt);
        self.add_usage(t.0)
    }

    /// Accounts for an incremental assistant response.
    pub fn account_assistant_delta(&mut self, delta: &str) -> (r: Result<(), ContextBudgetError>)
        ensures
            final(self).window() == old(self).window(),
            final(self).reserved() == old(self).reserved(),
            words(delta@).len() <= old(self).available() ==> r is Ok && final(self).used()
                == old(self).used() + words(delta@).len(),
            words(delta@).len() > old(self).available() ==> r is Err && final(self).used()
                == old(self).used(),
    {
        let t = Self::estimate_tokens(delta);
        self.add_usage(t.0)
    }

    /// Replaces the response reservation.
    pub fn reserve_response(&mut self, tokens: usize)
        ensures
            final(self).window() == old(self).window(),
            final(self).reserved() == tokens,
            final(self).used() == old(self).used(),
    {
        self.reserved_response_tokens = TokenCount(tokens);
    }

    /// Clears usage after a request completes.
    pub fn complete_request(&mut self)
        ensures
            final(self).window() == old(self).window(),
            final(self).reserved() == old(self).reserved(),
            final(self).used() == 0,
    {
        self.reset();
    }

    /// Clears usage after a request is cancelled.
    pub fn cancel_request(&mut self)
        ensures
            final(self).window() == old(self).window(),
            final(self).reserved() == old(self).reserved(),
            final(self).used() == 0,
    {
        self.reset();
    }

    pub fn reset(&mut self)
        ensures
            final(self).window() == old(self).window(),
            final(self).reserved() == old(self).reserved(),
            final(self).used() == 0,
    {
        self.used_tokens = TokenCount(0);
    }

    /// Removes compacted tokens from the current usage.
    pub fn compact(&mut self, reclaimed_tokens: usize) -> (r: Result<(), ContextBudgetError>)
        ensures
            final(self).window() == old(self).window(),
            final(self).reserved() == old(self).reserved(),
            reclaimed_tokens <= old(self).used() ==> r is Ok && final(self).used()
                == old(self).used() - reclaimed_tokens,
            reclaimed_tokens > old(self).used() ==> r == Err::<(), ContextBudgetError>(
                ContextBudgetError {
                    requested: TokenCount(reclaimed_tokens),
                    available: TokenCount(old(self).used() as usize),
                },
            ) && final(self).used() == old(self).used(),
    {
        if reclaimed_tokens <= self.used_tokens.0 {
            self.used_tokens = TokenCount(self.used_tokens.0 - reclaimed_tokens);
            Ok(())
        } else {
            Err(ContextBudgetError { requested: TokenCount(reclaimed_tokens), available: self.used_tokens })
        }
    }

    /// The number of whitespace-separated words in `text`.
    pub fn estimate_tokens(text: &str) -> (t: TokenCount)
        ensures
            t.0 == words(text@).len(),
    {
        let v = chars_of(text);
        TokenCount(count_words(&v))
    }
}

/// Usage never exceeds the usable window after a successful `add_usage`,
/// when it did not exceed it before.
pub proof fn law_add_usage_stays_within_capacity(before: ContextBudget, after: ContextBudget, tokens: nat)
    requires
        before.used() <= before.capacity(),
        tokens <= before.available(),
        after.window() == before.window(),
        after.reserved() == before.reserved(),
        after.used() == before.used() + tokens,
    ensures
        after.used() <= after.capacity(),
{
}

} // verus!
