use vstd::prelude::*;
use crate::cpu::CpuModule;
use crate::memory::MemoryModule;
use crate::module::Module;
use crate::text::same_text;
use crate::time::TimeModule;

verus! {

/// The kinds of metric provider.
#[derive(Clone, Copy, Debug, PartialEq, Eq, Structural)]
pub enum ModuleKind {
    Memory,
    Cpu,
    Time,
}

/// The provider kind that a command-line name selects, if any.
pub open spec fn kind_of(name: Seq<char>) -> Option<ModuleKind> {
    if name == "time"@ {
        Option::Some(ModuleKind::Time)
    } else if name == "memory"@ {
        Option::Some(ModuleKind::Memory)
    } else if name == "cpu"@ {
        Option::Some(ModuleKind::Cpu)
    } else {
        Option::None
    }
}

/// The names selected when none is given, in display order.
pub open spec fn default_names() -> Seq<Seq<char>> {
    seq!["memory"@, "cpu"@, "time"@]
}

/// A provider of any kind, as the module list holds it.
pub enum AnyModule {
    Memory(MemoryModule),
    Cpu(CpuModule),
    Time(TimeModule),
}

impl AnyModule {
    pub open spec fn kind(&self) -> ModuleKind {
        match self {
            AnyModule::Memory(_) => ModuleKind::Memory,
            AnyModule::Cpu(_) => ModuleKind::Cpu,
            AnyModule::Time(_) => ModuleKind::Time,
        }
    }

    /// Freshly made: well formed, with empty text.
    pub open spec fn is_fresh(&self) -> bool {
        match self {
            AnyModule::Memory(m) => m.wf() && m.text() == Seq::<char>::empty(),
            AnyModule::Cpu(m) => m.wf() && m.text() == Seq::<char>::empty(),
            AnyModule::Time(m) => m.text() == Seq::<char>::empty(),
        }
    }
}

impl Module for AnyModule {
    open spec fn text(&self) -> Seq<char> {
        match self {
            AnyModule::Memory(m) => m.text(),
            AnyModule::Cpu(m) => m.text(),
            AnyModule::Time(m) => m.text(),
        }
    }

    open spec fn interval(&self) -> u64 {
        match self {
            AnyModule::Memory(m) => m.interval(),
            AnyModule::Cpu(m) => m.interval(),
            AnyModule::Time(m) => m.interval(),
        }
    }

    fn get_string(&self) -> (r: &str) {
        match self {
            AnyModule::Memory(m) => m.get_string(),
            AnyModule::Cpu(m) => m.get_string(),
            AnyModule::Time(m) => m.get_string(),
        }
    }

    fn update_interval(&self) -> (r: u64) {
        match self {
            AnyModule::Memory(m) => m.update_interval(),
            AnyModule::Cpu(m) => m.update_interval(),
            AnyModule::Time(m) => m.update_interval(),
        }
    }
}

/// A new provider for the command-line name `name`, or `None` for a name
/// that selects none.
pub fn get_module(name: &str) -> (r: Option<AnyModule>)
    ensures
        match r {
            Option::None => kind_of(name@) is None,
            Option::Some(m) => kind_of(name@) == Option::Some(m.kind()) && m.is_fresh(),
        },
{
    proof {
        reveal_strlit("time");
        reveal_strlit("memory");
        reveal_strlit("cpu");
    }
    if same_text(name, "time") {
        Option::Some(AnyModule::Time(TimeModule::new()))
    } else if same_text(name, "memory") {
        Option::Some(AnyModule::Memory(MemoryModule::new()))
    } else if same_text(name, "cpu") {
        Option::Some(AnyModule::Cpu(CpuModule::new()))
    } else {
        Option::None
    }
}

/// Why a module list could not be built.
#[derive(Clone, Debug, PartialEq, Eq)]
pub enum SelectError {
    /// This name selects no provider.
    UnknownModule(String),
}

/// The names that `args` selects: `args` itself, or the default names when
/// it is empty.
pub open spec fn selected_names(args: Seq<String>) -> Seq<Seq<char>> {
    if args.len() == 0 {
        default_names()
    } else {
        args.map_values(|a: String| a@)
    }
}

/// Builds the module list from the command-line names `args` (the
/// program name left out), in their order. No names select the default
/// list. Fails on the first name that selects no provider.
pub fn select_modules(args: &Vec<String>) -> (r: Result<Vec<AnyModule>, SelectError>)
    ensures
        ({
            let names = selected_names(args@);
            match r {
                Result::Ok(v) => {
                    &&& v@.len() == names.len()
                    &&& v@.len() > 0
                    &&& forall|i: int|
                        0 <= i < v@.len() ==> kind_of(names[i]) == Option::Some(
                            #[trigger] v@[i].kind(),
                        ) && v@[i].is_fresh()
                },
                Result::Err(SelectError::UnknownModule(n)) => {
                    exists|i: int|
                        0 <= i < names.len() && kind_of(#[trigger] names[i]) is None && names[i]
                            == n@ && forall|j: int| 0 <= j < i ==> kind_of(names[j]) is Some
                },
            }
        }),
        r is Err <==> exists|i: int|
            0 <= i < selected_names(args@).len() && kind_of(
                #[trigger] selected_names(args@)[i],
            ) is None,
{
    let ghost names = selected_names(args@);
    let defaults: Vec<String> = vec![
        String::from_str("memory"),
        String::from_str("cpu"),
        String::from_str("time"),
    ];
    proof {
        reveal_strlit("memory");
        reveal_strlit("cpu");
        reveal_strlit("time");
    }
    let list: &Vec<String> = if args.len() == 0 {
        &defaults
    } else {
        args
    };
    assert(list@.map_values(|a: String| a@) == names);
    assert(names.len() > 0);
    let mut out: Vec<AnyModule> = Vec::new();
    let mut i: usize = 0;
    while i < list.len()
        invariant
            0 <= i <= list@.len(),
            names == list@.map_values(|a: String| a@),
            names == selected_names(args@),
            names.len() > 0,
            forall|k: int| 0 <= k < i ==> kind_of(#[trigger] names[k]) is Some,
            out@.len() == i,
            forall|k: int|
                0 <= k < i ==> kind_of(names[k]) == Option::Some(#[trigger] out@[k].kind())
                    && out@[k].is_fresh(),
        decreases list@.len() - i,
    {
        assert(names[i as int] == list@[i as int]@);
        match get_module(list[i].as_str()) {
            Option::Some(m) => {
                out.push(m);
            },
            Option::None => {
                assert(kind_of(names[i as int]) is None);
                return Result::Err(SelectError::UnknownModule(list[i].clone()));
            },
        }
        i = i + 1;
    }
    Result::Ok(out)
}

} // verus!
