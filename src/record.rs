use vstd::prelude::*;

verus! {

/// `log::Level`, the severity of a record, carried through as it is.
#[verifier::external_type_specification]
#[verifier::external_body]
pub struct ExLevel(log::Level);

/// One captured log record: an owned snapshot of what the logging facade
/// handed to the sink.
#[derive(Debug, PartialEq, Eq)]
pub struct CapRecord {
    pub level: log::Level,
    pub target: String,
    pub msg: String,
    pub module: Option<String>,
    pub file: Option<String>,
    pub line: Option<u32>,
}

fn copy_text(s: &Option<String>) -> (r: Option<String>)
    ensures
        r == *s,
{
    match s {
        Some(t) => Some(t.clone()),
        None => None,
    }
}

impl CapRecord {
    /// Builds a record from its parts, keeping each one unchanged.
    pub fn new(
        level: log::Level,
        target: String,
        msg: String,
        module: Option<String>,
        file: Option<String>,
        line: Option<u32>,
    ) -> (r: CapRecord)
        ensures
            r.level == level,
            r.target == target,
            r.msg == msg,
            r.module == module,
            r.file == file,
            r.line == line,
    {
        CapRecord { level, target, msg, module, file, line }
    }

    /// An independent copy, equal to `self` in every field.
    pub(crate) fn duplicate(&self) -> (r: CapRecord)
        ensures
            r == *self,
    {
        CapRecord {
            level: self.level,
            target: self.target.clone(),
            msg: self.msg.clone(),
            module: copy_text(&self.module),
            file: copy_text(&self.file),
            line: self.line,
        }
    }
}

impl Clone for CapRecord {
    fn clone(&self) -> (r: CapRecord)
        ensures
            r == *self,
    {
        self.duplicate()
    }
}

} // verus!
