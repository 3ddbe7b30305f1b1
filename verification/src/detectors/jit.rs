//! Allowlist of guest JIT regions: anonymous or JIT mappings of a size range,
//! optionally restricted to matching process and module names.
use vstd::prelude::*;
use crate::detectors::memory::{MemoryMapping, MemoryRegionKind};
use crate::detectors::DetectorError;
use crate::pattern::{compilable, unsupported_syntax_message, Pattern};
use crate::text::{dec, is_blank, owned, push_str, trim, u64_to_dec};

verus! {

#[derive(Debug, Clone)]
pub struct JitAllowRule {
    pub process: Option<Pattern>,
    pub module: Option<Pattern>,
    pub min_size: u64,
    pub max_size: u64,
}

/// The optional pattern source is present and not blank.
pub open spec fn pattern_given(p: Option<&str>) -> bool {
    p matches Some(s) && trim(s@).len() > 0
}

/// The optional pattern source is absent, blank, or compiles.
pub open spec fn pattern_ok(p: Option<&str>) -> bool {
    pattern_given(p) ==> compilable(p->0@)
}

/// The message for an invalid size range.
pub open spec fn size_range_message(min_size: u64, max_size: u64) -> Seq<char> {
    "JIT allow rule size range "@ + dec(min_size as nat) + ".."@ + dec(max_size as nat)
        + " is invalid"@
}

/// `pattern` (if any) matches the optional name; a missing name never matches.
pub open spec fn optional_match(pattern: Option<Pattern>, name: Option<String>) -> bool {
    match pattern {
        None => true,
        Some(p) => match name {
            Some(n) => p.matches(n@),
            None => false,
        },
    }
}

/// The rule compiled from a non-blank source, or no rule.
pub open spec fn compiled_from(r: Option<Pattern>, p: Option<&str>) -> bool {
    if pattern_given(p) {
        r matches Some(q) && q.matches_source(p->0@)
    } else {
        r is None
    }
}

impl Pattern {
    /// The pattern is the compilation of `source`.
    pub open spec fn matches_source(self, source: Seq<char>) -> bool {
        &&& self.anchored_start == crate::pattern::start_anchor(source)
        &&& self.anchored_end == crate::pattern::end_anchor(source)
        &&& self.body@ == crate::pattern::pattern_body(source)
    }
}

fn compile_optional(p: Option<&str>) -> (r: Result<Option<Pattern>, String>)
    ensures
        r is Ok <==> pattern_ok(p),
        r matches Ok(q) ==> compiled_from(q, p),
        r matches Err(e) ==> e@ == unsupported_syntax_message(),
{
    match p {
        None => Ok(None),
        Some(s) => {
            if is_blank(s) {
                Ok(None)
            } else {
                match Pattern::compile(s) {
                    Ok(q) => Ok(Some(q)),
                    Err(e) => Err(e),
                }
            }
        },
    }
}

impl JitAllowRule {
    pub fn new(
        process_pattern: Option<&str>,
        module_pattern: Option<&str>,
        min_size: u64,
        max_size: u64,
    ) -> (r: Result<Self, DetectorError>)
        ensures
            r is Ok <==> (max_size != 0 && min_size <= max_size && pattern_ok(process_pattern)
                && pattern_ok(module_pattern)),
            (max_size == 0 || min_size > max_size) ==> (r matches Err(
                DetectorError::MalformedInput { detail },
            ) && detail@ == size_range_message(min_size, max_size)),
            (max_size != 0 && min_size <= max_size && !pattern_ok(process_pattern)) ==> (r matches Err(
                DetectorError::MalformedInput { detail },
            ) && detail@ == "invalid JIT process pattern: "@ + unsupported_syntax_message()),
            (max_size != 0 && min_size <= max_size && pattern_ok(process_pattern) && !pattern_ok(
                module_pattern,
            )) ==> (r matches Err(DetectorError::MalformedInput { detail }) && detail@
                == "invalid JIT module pattern: "@ + unsupported_syntax_message()),
            r matches Ok(rule) ==> rule.min_size == min_size && rule.max_size == max_size
                && compiled_from(rule.process, process_pattern) && compiled_from(
                rule.module,
                module_pattern,
            ),
    {
        if max_size == 0 || min_size > max_size {
            let mut detail = owned("JIT allow rule size range ");
            let a = u64_to_dec(min_size);
            push_str(&mut detail, a.as_str());
            push_str(&mut detail, "..");
            let b = u64_to_dec(max_size);
            push_str(&mut detail, b.as_str());
            push_str(&mut detail, " is invalid");
            return Err(DetectorError::MalformedInput { detail });
        }
        let process = match compile_optional(process_pattern) {
            Ok(q) => q,
            Err(e) => {
                let mut detail = owned("invalid JIT process pattern: ");
                push_str(&mut detail, e.as_str());
                return Err(DetectorError::MalformedInput { detail });
            },
        };
        let module = match compile_optional(module_pattern) {
            Ok(q) => q,
            Err(e) => {
                let mut detail = owned("invalid JIT module pattern: ");
                push_str(&mut detail, e.as_str());
                return Err(DetectorError::MalformedInput { detail });
            },
        };
        Ok(JitAllowRule { process, module, min_size, max_size })
    }

    /// The rule covers the mapping: a JIT or anonymous region whose size is in
    /// range and whose process and module names match the rule's patterns.
    pub open spec fn allows_spec(self, m: MemoryMapping) -> bool {
        let size: int = if m.end >= m.start {
            m.end - m.start
        } else {
            0
        };
        &&& (m.kind == MemoryRegionKind::Jit || m.kind == MemoryRegionKind::Anonymous)
        &&& self.min_size <= size <= self.max_size
        &&& optional_match(self.process, m.process)
        &&& optional_match(self.module, m.module)
    }

    fn optional_is_match(pattern: &Option<Pattern>, name: &Option<String>) -> (r: bool)
        ensures
            r == optional_match(*pattern, *name),
    {
        match pattern {
            None => true,
            Some(p) => match name {
                Some(n) => p.is_match(n.as_str()),
                None => false,
            },
        }
    }

    pub fn allows(&self, mapping: &MemoryMapping) -> (r: bool)
        ensures
            r == self.allows_spec(*mapping),
    {
        if mapping.kind != MemoryRegionKind::Jit && mapping.kind != MemoryRegionKind::Anonymous {
            return false;
        }
        let size = if mapping.end >= mapping.start {
            mapping.end - mapping.start
        } else {
            0
        };
        if size < self.min_size || size > self.max_size {
            return false;
        }
        let process_ok = Self::optional_is_match(&self.process, &mapping.process);
        let module_ok = Self::optional_is_match(&self.module, &mapping.module);
        process_ok && module_ok
    }
}

#[derive(Debug, Clone)]
pub struct JitAllowlist {
    pub rules: Vec<JitAllowRule>,
}

impl JitAllowlist {
    /// Some rule of the allowlist covers the mapping.
    pub open spec fn allows_spec(self, m: MemoryMapping) -> bool {
        exists|i: int| 0 <= i < self.rules@.len() && (#[trigger] self.rules@[i]).allows_spec(m)
    }

    pub fn new(rules: Vec<JitAllowRule>) -> (r: Self)
        ensures
            r.rules@ == rules@,
    {
        JitAllowlist { rules }
    }

    pub fn empty() -> (r: Self)
        ensures
            r.rules@.len() == 0,
    {
        JitAllowlist { rules: Vec::new() }
    }

    pub fn allows(&self, mapping: &MemoryMapping) -> (r: bool)
        ensures
            r == self.allows_spec(*mapping),
    {
        let mut i: usize = 0;
        while i < self.rules.len()
            invariant
                i <= self.rules@.len(),
                forall|k: int| 0 <= k < i ==> !(#[trigger] self.rules@[k]).allows_spec(*mapping),
            decreases self.rules@.len() - i,
        {
            if self.rules[i].allows(mapping) {
                return true;
            }
            i = i + 1;
        }
        false
    }

    pub fn len(&self) -> (r: usize)
        ensures
            r == self.rules@.len(),
    {
        self.rules.len()
    }

    pub fn is_empty(&self) -> (r: bool)
        ensures
            r == (self.rules@.len() == 0),
    {
        self.rules.len() == 0
    }
}

} // verus!
