//! The component types a scene file names.
use vstd::prelude::*;

verus! {

/// A component type that scene files and editor snapshots store by name.
#[derive(Debug, Clone, Copy, PartialEq, Eq, Hash, Structural)]
pub enum ComponentKind {
    Transform,
    Sprite,
    Animation,
    Physics,
    Velocity,
    Player,
    CameraTag,
    ParticleEmitter,
    AudioSource,
    Script,
}

/// The component type a scene file means by `name`, if it is one it knows.
pub open spec fn spec_component_kind(name: Seq<char>) -> Option<ComponentKind> {
    if name == "Transform"@ {
        Some(ComponentKind::Transform)
    } else if name == "Sprite"@ {
        Some(ComponentKind::Sprite)
    } else if name == "Animation"@ {
        Some(ComponentKind::Animation)
    } else if name == "Physics"@ {
        Some(ComponentKind::Physics)
    } else if name == "Velocity"@ {
        Some(ComponentKind::Velocity)
    } else if name == "Player"@ {
        Some(ComponentKind::Player)
    } else if name == "CameraTag"@ {
        Some(ComponentKind::CameraTag)
    } else if name == "ParticleEmitter"@ {
        Some(ComponentKind::ParticleEmitter)
    } else if name == "AudioSource"@ {
        Some(ComponentKind::AudioSource)
    } else if name == "Script"@ {
        Some(ComponentKind::Script)
    } else {
        None
    }
}

/// The name under which a component type is stored.
pub open spec fn spec_component_name(k: ComponentKind) -> Seq<char> {
    match k {
        ComponentKind::Transform => "Transform"@,
        ComponentKind::Sprite => "Sprite"@,
        ComponentKind::Animation => "Animation"@,
        ComponentKind::Physics => "Physics"@,
        ComponentKind::Velocity => "Velocity"@,
        ComponentKind::Player => "Player"@,
        ComponentKind::CameraTag => "CameraTag"@,
        ComponentKind::ParticleEmitter => "ParticleEmitter"@,
        ComponentKind::AudioSource => "AudioSource"@,
        ComponentKind::Script => "Script"@,
    }
}

fn same_text(a: &str, b: &str) -> (r: bool)
    ensures
        r == (a@ == b@),
{
    let x = String::from_str(a);
    let y = String::from_str(b);
    x == y
}

impl ComponentKind {
    /// The component type named `name`; `None` for a name the engine does not know
    /// (which the scene loader skips with a warning).
    pub fn from_name(name: &str) -> (k: Option<ComponentKind>)
        ensures
            k == spec_component_kind(name@),
    {
        if same_text(name, "Transform") {
            Some(ComponentKind::Transform)
        } else if same_text(name, "Sprite") {
            Some(ComponentKind::Sprite)
        } else if same_text(name, "Animation") {
            Some(ComponentKind::Animation)
        } else if same_text(name, "Physics") {
            Some(ComponentKind::Physics)
        } else if same_text(name, "Velocity") {
            Some(ComponentKind::Velocity)
        } else if same_text(name, "Player") {
            Some(ComponentKind::Player)
        } else if same_text(name, "CameraTag") {
            Some(ComponentKind::CameraTag)
        } else if same_text(name, "ParticleEmitter") {
            Some(ComponentKind::ParticleEmitter)
        } else if same_text(name, "AudioSource") {
            Some(ComponentKind::AudioSource)
        } else if same_text(name, "Script") {
            Some(ComponentKind::Script)
        } else {
            None
        }
    }

    /// The name under which this component type is stored.
    pub fn name(&self) -> (s: &'static str)
        ensures
            s@ == spec_component_name(*self),
    {
        match self {
            ComponentKind::Transform => "Transform",
            ComponentKind::Sprite => "Sprite",
            ComponentKind::Animation => "Animation",
            ComponentKind::Physics => "Physics",
            ComponentKind::Velocity => "Velocity",
            ComponentKind::Player => "Player",
            ComponentKind::CameraTag => "CameraTag",
            ComponentKind::ParticleEmitter => "ParticleEmitter",
            ComponentKind::AudioSource => "AudioSource",
            ComponentKind::Script => "Script",
        }
    }
}

/// Every component type written under its name is read back as the same type.
pub proof fn law_component_name_roundtrip(k: ComponentKind)
    ensures
        spec_component_kind(spec_component_name(k)) == Some(k),
{
    reveal_strlit("Transform");
    reveal_strlit("Sprite");
    reveal_strlit("Animation");
    reveal_strlit("Physics");
    reveal_strlit("Velocity");
    reveal_strlit("Player");
    reveal_strlit("CameraTag");
    reveal_strlit("ParticleEmitter");
    reveal_strlit("AudioSource");
    reveal_strlit("Script");
    reveal_strlit("Parent");
    match k {
        ComponentKind::Transform => {

        },
        ComponentKind::Sprite => {
            assert("Sprite"@.len() != "Transform"@.len());
        },
        ComponentKind::Animation => {
            assert("Animation"@[0] != "Transform"@[0]);
            assert("Animation"@.len() != "Sprite"@.len());
        },
        ComponentKind::Physics => {
            assert("Physics"@.len() != "Transform"@.len());
            assert("Physics"@.len() != "Sprite"@.len());
            assert("Physics"@.len() != "Animation"@.len());
        },
        ComponentKind::Velocity => {
            assert("Velocity"@.len() != "Transform"@.len());
            assert("Velocity"@.len() != "Sprite"@.len());
            assert("Velocity"@.len() != "Animation"@.len());
            assert("Velocity"@.len() != "Physics"@.len());
        },
        ComponentKind::Player => {
            assert("Player"@.len() != "Transform"@.len());
            assert("Player"@[0] != "Sprite"@[0]);
            assert("Player"@.len() != "Animation"@.len());
            assert("Player"@.len() != "Physics"@.len());
            assert("Player"@.len() != "Velocity"@.len());
        },
        ComponentKind::CameraTag => {
            assert("CameraTag"@[0] != "Transform"@[0]);
            assert("CameraTag"@.len() != "Sprite"@.len());
            assert("CameraTag"@[0] != "Animation"@[0]);
            assert("CameraTag"@.len() != "Physics"@.len());
            assert("CameraTag"@.len() != "Velocity"@.len());
            assert("CameraTag"@.len() != "Player"@.len());
        },
        ComponentKind::ParticleEmitter => {
            assert("ParticleEmitter"@.len() != "Transform"@.len());
            assert("ParticleEmitter"@.len() != "Sprite"@.len());
            assert("ParticleEmitter"@.len() != "Animation"@.len());
            assert("ParticleEmitter"@.len() != "Physics"@.len());
            assert("ParticleEmitter"@.len() != "Velocity"@.len());
            assert("ParticleEmitter"@.len() != "Player"@.len());
            assert("ParticleEmitter"@.len() != "CameraTag"@.len());
        },
        ComponentKind::AudioSource => {
            assert("AudioSource"@.len() != "Transform"@.len());
            assert("AudioSource"@.len() != "Sprite"@.len());
            assert("AudioSource"@.len() != "Animation"@.len());
            assert("AudioSource"@.len() != "Physics"@.len());
            assert("AudioSource"@.len() != "Velocity"@.len());
            assert("AudioSource"@.len() != "Player"@.len());
            assert("AudioSource"@.len() != "CameraTag"@.len());
            assert("AudioSource"@.len() != "ParticleEmitter"@.len());
        },
        ComponentKind::Script => {
            assert("Script"@.len() != "Transform"@.len());
            assert("Script"@[1] != "Sprite"@[1]);
            assert("Script"@.len() != "Animation"@.len());
            assert("Script"@.len() != "Physics"@.len());
            assert("Script"@.len() != "Velocity"@.len());
            assert("Script"@[0] != "Player"@[0]);
            assert("Script"@.len() != "CameraTag"@.len());
            assert("Script"@.len() != "ParticleEmitter"@.len());
            assert("Script"@.len() != "AudioSource"@.len());
        },
    }
}

/// The parent link is not a component the loader creates from its name: it is
/// wired up in a second pass, after every entity exists.
pub proof fn law_parent_is_not_a_component()
    ensures
        spec_component_kind("Parent"@) is None,
{
    reveal_strlit("Transform");
    reveal_strlit("Sprite");
    reveal_strlit("Animation");
    reveal_strlit("Physics");
    reveal_strlit("Velocity");
    reveal_strlit("Player");
    reveal_strlit("CameraTag");
    reveal_strlit("ParticleEmitter");
    reveal_strlit("AudioSource");
    reveal_strlit("Script");
    reveal_strlit("Parent");
    assert("Parent"@.len() != "Transform"@.len());
    assert("Parent"@[0] != "Sprite"@[0]);
    assert("Parent"@.len() != "Animation"@.len());
    assert("Parent"@.len() != "Physics"@.len());
    assert("Parent"@.len() != "Velocity"@.len());
    assert("Parent"@[1] != "Player"@[1]);
    assert("Parent"@.len() != "CameraTag"@.len());
    assert("Parent"@.len() != "ParticleEmitter"@.len());
    assert("Parent"@.len() != "AudioSource"@.len());
    assert("Parent"@[0] != "Script"@[0]);
}

} // verus!
