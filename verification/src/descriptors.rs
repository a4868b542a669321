//! Parser and canonical printer for Java field and method type descriptors.
//!
//! Grammar: `FieldDescriptor := '['* ComponentType`,
//! `ComponentType := 'B'|'C'|'D'|'F'|'I'|'J'|'S'|'Z'|'V'|('L' ClassName ';')`,
//! `MethodDescriptor := '(' FieldDescriptor* ')' (FieldDescriptor | 'V')`.

use vstd::prelude::*;
use vstd::string::*;

verus! {

#[derive(Debug, Clone, Copy, PartialEq, Eq, Structural)]
pub enum DescriptorError {
    InvalidChar(char),
    UnexpectedEnd,
    ClassTerminatorNotFound,
    TooManyArrayDimensions,
    MissingOpenParen,
    MissingCloseParen,
    InvalidReturnType,
}

#[derive(Debug, Clone, Copy, PartialEq, Eq, Structural)]
pub enum Type {
    SignedByte,
    Char,
    Double,
    Float,
    Integer,
    Long,
    Short,
    Boolean,
    Void,
}

#[derive(Debug, Clone, PartialEq, Eq)]
pub enum ComponentType {
    Base(Type),
    Object { class_name: String },
}

/// Mathematical model of a component type: class names as character sequences.
pub enum SpecComponentType {
    Base(Type),
    Object { class_name: Seq<char> },
}

impl View for ComponentType {
    type V = SpecComponentType;

    open spec fn view(&self) -> SpecComponentType {
        match self {
            ComponentType::Base(t) => SpecComponentType::Base(*t),
            ComponentType::Object { class_name } => SpecComponentType::Object {
                class_name: class_name@,
            },
        }
    }
}

#[derive(Debug, Clone, PartialEq, Eq)]
pub struct FieldDescriptor {
    pub element_type: ComponentType,
    pub array_dimension: Option<u8>,
}

/// Mathematical model of a field descriptor.
pub struct SpecFieldDescriptor {
    pub element_type: SpecComponentType,
    pub array_dimension: Option<u8>,
}

impl View for FieldDescriptor {
    type V = SpecFieldDescriptor;

    open spec fn view(&self) -> SpecFieldDescriptor {
        SpecFieldDescriptor {
            element_type: self.element_type@,
            array_dimension: self.array_dimension,
        }
    }
}

#[derive(Debug, Clone, PartialEq, Eq)]
pub struct MethodDescriptor {
    pub parameters: Vec<FieldDescriptor>,
    pub return_type: Option<FieldDescriptor>,
}

/// Mathematical model of a method descriptor.
pub struct SpecMethodDescriptor {
    pub parameters: Seq<SpecFieldDescriptor>,
    pub return_type: Option<SpecFieldDescriptor>,
}

impl View for MethodDescriptor {
    type V = SpecMethodDescriptor;

    open spec fn view(&self) -> SpecMethodDescriptor {
        SpecMethodDescriptor {
            parameters: Seq::new(self.parameters@.len(), |i: int| self.parameters@[i]@),
            return_type: match self.return_type {
                Some(d) => Some(d@),
                None => None,
            },
        }
    }
}

impl FieldDescriptor {
    /// An array descriptor must carry a positive dimension.
    pub fn new(component: ComponentType, dimension: Option<u8>) -> (r: Self)
        requires
            dimension matches Some(d) ==> d > 0,
        ensures
            r.element_type == component,
            r.array_dimension == dimension,
    {
        FieldDescriptor { element_type: component, array_dimension: dimension }
    }

    pub fn from_type(base_type: Type) -> (r: Self)
        ensures
            r.element_type == ComponentType::Base(base_type),
            r.array_dimension is None,
    {
        FieldDescriptor { element_type: ComponentType::Base(base_type), array_dimension: None }
    }

    pub fn from_class(class_name: String) -> (r: Self)
        ensures
            r.element_type == (ComponentType::Object { class_name }),
            r.array_dimension is None,
    {
        FieldDescriptor {
            element_type: ComponentType::Object { class_name },
            array_dimension: None,
        }
    }

    pub fn from_class_str(class_name: &str) -> (r: Self)
        ensures
            r@.element_type == (SpecComponentType::Object { class_name: class_name@ }),
            r.array_dimension is None,
    {
        FieldDescriptor {
            element_type: ComponentType::Object { class_name: class_name.to_owned() },
            array_dimension: None,
        }
    }

    pub fn from_type_array(base_type: Type, dimension: u8) -> (r: Self)
        requires
            dimension > 0,
        ensures
            r.element_type == ComponentType::Base(base_type),
            r.array_dimension == Some(dimension),
    {
        FieldDescriptor {
            element_type: ComponentType::Base(base_type),
            array_dimension: Some(dimension),
        }
    }

    pub fn from_class_array(class_name: &str, dimension: u8) -> (r: Self)
        requires
            dimension > 0,
        ensures
            r@.element_type == (SpecComponentType::Object { class_name: class_name@ }),
            r.array_dimension == Some(dimension),
    {
        FieldDescriptor {
            element_type: ComponentType::Object { class_name: class_name.to_owned() },
            array_dimension: Some(dimension),
        }
    }
}

impl MethodDescriptor {
    pub fn new(parameters: Vec<FieldDescriptor>, return_type: Option<FieldDescriptor>) -> (r: Self)
        ensures
            r.parameters == parameters,
            r.return_type == return_type,
    {
        MethodDescriptor { parameters, return_type }
    }
}

/// Index of the first occurrence of `c` in `s` at or after `i`.
pub open spec fn find_char_from(s: Seq<char>, i: int, c: char) -> Option<int>
    decreases s.len() - i,
{
    if i < 0 || i >= s.len() {
        None
    } else if s[i] == c {
        Some(i)
    } else {
        find_char_from(s, i + 1, c)
    }
}

/// Number of consecutive `'['` characters starting at `i`.
pub open spec fn bracket_run(s: Seq<char>, i: int) -> int
    decreases s.len() - i,
{
    if i < 0 || i >= s.len() {
        0
    } else if s[i] == '[' {
        1 + bracket_run(s, i + 1)
    } else {
        0
    }
}

pub proof fn lemma_bracket_run_nonneg(s: Seq<char>, i: int)
    ensures
        bracket_run(s, i) >= 0,
    decreases s.len() - i,
{
    if 0 <= i < s.len() && s[i] == '[' {
        lemma_bracket_run_nonneg(s, i + 1);
    }
}

/// What parsing one component of a descriptor yields: the component and the
/// number of characters consumed.
pub open spec fn spec_parse_component_type(s: Seq<char>) -> Result<
    (SpecComponentType, int),
    DescriptorError,
> {
    if s.len() == 0 {
        Err(DescriptorError::UnexpectedEnd)
    } else if s[0] == 'L' {
        match find_char_from(s, 0, ';') {
            None => Err(DescriptorError::ClassTerminatorNotFound),
            Some(semi) => Ok(
                (SpecComponentType::Object { class_name: s.subrange(1, semi) }, semi + 1),
            ),
        }
    } else if s[0] == 'B' {
        Ok((SpecComponentType::Base(Type::SignedByte), 1))
    } else if s[0] == 'C' {
        Ok((SpecComponentType::Base(Type::Char), 1))
    } else if s[0] == 'D' {
        Ok((SpecComponentType::Base(Type::Double), 1))
    } else if s[0] == 'F' {
        Ok((SpecComponentType::Base(Type::Float), 1))
    } else if s[0] == 'I' {
        Ok((SpecComponentType::Base(Type::Integer), 1))
    } else if s[0] == 'J' {
        Ok((SpecComponentType::Base(Type::Long), 1))
    } else if s[0] == 'S' {
        Ok((SpecComponentType::Base(Type::Short), 1))
    } else if s[0] == 'Z' {
        Ok((SpecComponentType::Base(Type::Boolean), 1))
    } else if s[0] == 'V' {
        Ok((SpecComponentType::Base(Type::Void), 1))
    } else {
        Err(DescriptorError::InvalidChar(s[0]))
    }
}

/// What parsing a field descriptor starting at `start` yields: the descriptor
/// and the position of the first character after it.
pub open spec fn spec_parse_field_descriptor_at(s: Seq<char>, start: int) -> Result<
    (SpecFieldDescriptor, int),
    DescriptorError,
> {
    if start >= s.len() {
        Err(DescriptorError::UnexpectedEnd)
    } else {
        let n = bracket_run(s, start);
        if n > 255 {
            Err(DescriptorError::TooManyArrayDimensions)
        } else if start + n >= s.len() {
            Err(DescriptorError::UnexpectedEnd)
        } else {
            match spec_parse_component_type(s.subrange(start + n, s.len() as int)) {
                Err(e) => Err(e),
                Ok((c, used)) => Ok(
                    (
                        SpecFieldDescriptor {
                            element_type: c,
                            array_dimension: if n > 0 {
                                Some(n as u8)
                            } else {
                                None
                            },
                        },
                        start + n + used,
                    ),
                ),
            }
        }
    }
}

/// What parsing a whole field descriptor yields: the descriptor, provided the
/// input is consumed entirely.
pub open spec fn spec_parse_field_descriptor(s: Seq<char>) -> Result<
    SpecFieldDescriptor,
    DescriptorError,
> {
    match spec_parse_field_descriptor_at(s, 0) {
        Err(e) => Err(e),
        Ok((fd, used)) => if used == s.len() {
            Ok(fd)
        } else {
            Err(DescriptorError::InvalidChar(s[used]))
        },
    }
}

/// Component parses consume at least one and at most all characters.
pub proof fn lemma_parse_component_bounds(s: Seq<char>)
    requires
        spec_parse_component_type(s) is Ok,
    ensures
        0 < spec_parse_component_type(s)->Ok_0.1 <= s.len(),
{
    if s.len() > 0 && s[0] == 'L' {
        lemma_find_char_from_bounds(s, 0, ';');
    }
}

pub proof fn lemma_find_char_from_bounds(s: Seq<char>, i: int, c: char)
    requires
        find_char_from(s, i, c) is Some,
    ensures
        i <= find_char_from(s, i, c)->0 < s.len(),
        s[find_char_from(s, i, c)->0] == c,
    decreases s.len() - i,
{
    if 0 <= i < s.len() && s[i] != c {
        lemma_find_char_from_bounds(s, i + 1, c);
    }
}

/// Field-descriptor parses make progress and stay within the input.
pub proof fn lemma_parse_field_at_bounds(s: Seq<char>, start: int)
    requires
        0 <= start,
        spec_parse_field_descriptor_at(s, start) is Ok,
    ensures
        start < spec_parse_field_descriptor_at(s, start)->Ok_0.1 <= s.len(),
{
    let n = bracket_run(s, start);
    lemma_bracket_run_nonneg(s, start);
    let rest = s.subrange(start + n, s.len() as int);
    lemma_parse_component_bounds(rest);
}

/// What parsing the parameter section of a method descriptor yields.
pub open spec fn spec_parse_params(sec: Seq<char>, pos: int) -> Result<
    Seq<SpecFieldDescriptor>,
    DescriptorError,
>
    decreases sec.len() - pos,
{
    if pos < 0 || pos >= sec.len() {
        Ok(Seq::empty())
    } else {
        match spec_parse_field_descriptor_at(sec, pos) {
            Err(e) => Err(e),
            Ok((fd, used)) => if pos < used <= sec.len() {
                match spec_parse_params(sec, used) {
                    Err(e) => Err(e),
                    Ok(rest) => Ok(seq![fd] + rest),
                }
            } else {
                // never reached: a successful parse always makes progress
                Err(DescriptorError::UnexpectedEnd)
            },
        }
    }
}

/// What parsing a whole method descriptor yields.
pub open spec fn spec_parse_method_descriptor(s: Seq<char>) -> Result<
    SpecMethodDescriptor,
    DescriptorError,
> {
    if s.len() == 0 {
        Err(DescriptorError::UnexpectedEnd)
    } else if s[0] != '(' {
        Err(DescriptorError::MissingOpenParen)
    } else {
        match find_char_from(s, 0, ')') {
            None => Err(DescriptorError::MissingCloseParen),
            Some(close) => {
                let params_sec = s.subrange(1, close);
                let ret_sec = s.subrange(close + 1, s.len() as int);
                match spec_parse_params(params_sec, 0) {
                    Err(e) => Err(e),
                    Ok(params) => if ret_sec.len() == 0 {
                        Err(DescriptorError::UnexpectedEnd)
                    } else if ret_sec == seq!['V'] {
                        Ok(SpecMethodDescriptor { parameters: params, return_type: None })
                    } else {
                        match spec_parse_field_descriptor(ret_sec) {
                            Err(e) => Err(e),
                            Ok(rd) => Ok(
                                SpecMethodDescriptor {
                                    parameters: params,
                                    return_type: Some(rd),
                                },
                            ),
                        }
                    },
                }
            },
        }
    }
}

/// The single character that encodes a primitive type.
pub open spec fn type_char(t: Type) -> char {
    match t {
        Type::SignedByte => 'B',
        Type::Char => 'C',
        Type::Double => 'D',
        Type::Float => 'F',
        Type::Integer => 'I',
        Type::Long => 'J',
        Type::Short => 'S',
        Type::Boolean => 'Z',
        Type::Void => 'V',
    }
}

/// Canonical printed form of a component type.
pub open spec fn spec_print_component(c: SpecComponentType) -> Seq<char> {
    match c {
        SpecComponentType::Base(t) => seq![type_char(t)],
        SpecComponentType::Object { class_name } => seq!['L'] + class_name + seq![';'],
    }
}

/// Canonical printed form of a field descriptor: one `'['` per array
/// dimension, then the component.
pub open spec fn spec_print_field_descriptor(d: SpecFieldDescriptor) -> Seq<char> {
    let n = match d.array_dimension {
        Some(k) => k as int,
        None => 0,
    };
    Seq::new(n as nat, |i: int| '[') + spec_print_component(d.element_type)
}

/// A field descriptor the grammar can express: a present array dimension is
/// positive, and a class name contains no `';'`.
pub open spec fn valid_field_descriptor(d: SpecFieldDescriptor) -> bool {
    &&& (d.array_dimension matches Some(k) ==> k > 0)
    &&& (d.element_type matches SpecComponentType::Object { class_name } ==> forall|j: int|
        0 <= j < class_name.len() ==> class_name[j] != ';')
}

proof fn lemma_bracket_run_exact(s: Seq<char>, i: int, n: int)
    requires
        0 <= i,
        0 <= n,
        i + n <= s.len(),
        forall|j: int| i <= j < i + n ==> s[j] == '[',
        i + n == s.len() || s[i + n] != '[',
    ensures
        bracket_run(s, i) == n,
    decreases n,
{
    if n > 0 {
        lemma_bracket_run_exact(s, i + 1, n - 1);
    }
}

proof fn lemma_find_char_from_first(s: Seq<char>, i: int, c: char, k: int)
    requires
        0 <= i <= k < s.len(),
        s[k] == c,
        forall|j: int| i <= j < k ==> s[j] != c,
    ensures
        find_char_from(s, i, c) == Some(k),
    decreases k - i,
{
    if i < k {
        lemma_find_char_from_first(s, i + 1, c, k);
    }
}

/// The round-trip law: parsing the canonical printed form of any valid field
/// descriptor succeeds and reconstructs the descriptor exactly.
pub proof fn lemma_field_descriptor_round_trip(d: SpecFieldDescriptor)
    requires
        valid_field_descriptor(d),
    ensures
        spec_parse_field_descriptor(spec_print_field_descriptor(d)) == Ok::<
            SpecFieldDescriptor,
            DescriptorError,
        >(d),
{
    let p = spec_print_field_descriptor(d);
    let n = match d.array_dimension {
        Some(k) => k as int,
        None => 0,
    };
    let comp = spec_print_component(d.element_type);
    assert(comp.len() >= 1);
    assert(comp[0] != '[') by {
        match d.element_type {
            SpecComponentType::Base(t) => {
                assert(comp[0] == type_char(t));
            },
            SpecComponentType::Object { class_name } => {
                assert(comp[0] == 'L');
            },
        }
    }
    assert(p.len() == n + comp.len());
    assert(forall|j: int| 0 <= j < n ==> p[j] == '[');
    assert(p[n] == comp[0]);
    lemma_bracket_run_exact(p, 0, n);
    assert(p.subrange(n, p.len() as int) =~= comp);
    match d.element_type {
        SpecComponentType::Base(t) => {
            assert(spec_parse_component_type(comp) == Ok::<_, DescriptorError>(
                (d.element_type, 1int),
            ));
        },
        SpecComponentType::Object { class_name } => {
            let semi = 1 + class_name.len() as int;
            assert(comp[semi] == ';');
            assert(forall|j: int| 0 <= j < semi ==> comp[j] != ';') by {
                assert(comp[0] == 'L');
                assert(forall|j: int| 1 <= j < semi ==> comp[j] == class_name[j - 1]);
            }
            lemma_find_char_from_first(comp, 0, ';', semi);
            assert(comp.subrange(1, semi) =~= class_name);
            assert(spec_parse_component_type(comp) == Ok::<_, DescriptorError>(
                (d.element_type, semi + 1),
            ));
        },
    }
    let parsed = spec_parse_field_descriptor_at(p, 0);
    assert(parsed is Ok);
    let (fd, used) = parsed->Ok_0;
    assert(used == p.len());
    assert(fd.array_dimension == d.array_dimension);
    assert(fd == d);
}

/// Canonical printer for field descriptors, proved against
/// `spec_print_field_descriptor`.
#[verifier::loop_isolation(false)]
pub fn print_field_descriptor(d: &FieldDescriptor) -> (r: String)
    ensures
        r@ == spec_print_field_descriptor(d@),
{
    let n: u8 = match d.array_dimension {
        Some(k) => k,
        None => 0,
    };
    let mut out = String::new();
    let mut i: u8 = 0;
    proof {
        assert(out@ =~= Seq::new(0, |j: int| '['));
    }
    while i < n
        invariant
            i <= n,
            out@ == Seq::new(i as nat, |j: int| '['),
        decreases n - i,
    {
        out.append("[");
        proof {
            reveal_strlit("[");
            assert(out@ =~= Seq::new((i + 1) as nat, |j: int| '['));
        }
        i = i + 1;
    }
    match &d.element_type {
        ComponentType::Base(t) => {
            match t {
                Type::SignedByte => {
                    out.append("B");
                    proof {
                        reveal_strlit("B");
                        assert(out@ =~= spec_print_field_descriptor(d@));
                    }
                },
                Type::Char => {
                    out.append("C");
                    proof {
                        reveal_strlit("C");
                        assert(out@ =~= spec_print_field_descriptor(d@));
                    }
                },
                Type::Double => {
                    out.append("D");
                    proof {
                        reveal_strlit("D");
                        assert(out@ =~= spec_print_field_descriptor(d@));
                    }
                },
                Type::Float => {
                    out.append("F");
                    proof {
                        reveal_strlit("F");
                        assert(out@ =~= spec_print_field_descriptor(d@));
                    }
                },
                Type::Integer => {
                    out.append("I");
                    proof {
                        reveal_strlit("I");
                        assert(out@ =~= spec_print_field_descriptor(d@));
                    }
                },
                Type::Long => {
                    out.append("J");
                    proof {
                        reveal_strlit("J");
                        assert(out@ =~= spec_print_field_descriptor(d@));
                    }
                },
                Type::Short => {
                    out.append("S");
                    proof {
                        reveal_strlit("S");
                        assert(out@ =~= spec_print_field_descriptor(d@));
                    }
                },
                Type::Boolean => {
                    out.append("Z");
                    proof {
                        reveal_strlit("Z");
                        assert(out@ =~= spec_print_field_descriptor(d@));
                    }
                },
                Type::Void => {
                    out.append("V");
                    proof {
                        reveal_strlit("V");
                        assert(out@ =~= spec_print_field_descriptor(d@));
                    }
                },
            }
        },
        ComponentType::Object { class_name } => {
            out.append("L");
            out.append(class_name.as_str());
            out.append(";");
            proof {
                reveal_strlit("L");
                reveal_strlit(";");
                assert(out@ =~= spec_print_field_descriptor(d@));
            }
        },
    }
    out
}

/// Finds the first occurrence of `c` in `s` at or after `from`.
pub fn find_char(s: &str, from: usize, c: char) -> (r: Option<usize>)
    requires
        from <= s@.len(),
    ensures
        match r {
            Some(k) => find_char_from(s@, from as int, c) == Some(k as int),
            None => find_char_from(s@, from as int, c) is None,
        },
{
    let len = s.unicode_len();
    let mut i: usize = from;
    while i < len
        invariant
            from <= i <= len == s@.len(),
            find_char_from(s@, from as int, c) == find_char_from(s@, i as int, c),
        decreases len - i,
    {
        if s.get_char(i) == c {
            return Some(i);
        }
        i = i + 1;
    }
    None
}

/// Parses one component type from the front of `descriptor`, returning it
/// with the number of characters consumed.
pub fn parse_component_type(descriptor: &str) -> (r: Result<
    (ComponentType, usize),
    DescriptorError,
>)
    ensures
        match r {
            Ok((c, used)) => spec_parse_component_type(descriptor@) == Ok::<
                _,
                DescriptorError,
            >((c@, used as int)),
            Err(e) => spec_parse_component_type(descriptor@) == Err::<
                (SpecComponentType, int),
                _,
            >(e),
        },
{
    let len = descriptor.unicode_len();
    if len == 0 {
        return Err(DescriptorError::UnexpectedEnd);
    }
    let c0 = descriptor.get_char(0);
    if c0 == 'L' {
        match find_char(descriptor, 0, ';') {
            None => Err(DescriptorError::ClassTerminatorNotFound),
            Some(semi) => {
                proof {
                    lemma_find_char_from_bounds(descriptor@, 0, ';');
                }
                let class_name = descriptor.substring_char(1, semi).to_owned();
                Ok((ComponentType::Object { class_name }, semi + 1))
            },
        }
    } else if c0 == 'B' {
        Ok((ComponentType::Base(Type::SignedByte), 1))
    } else if c0 == 'C' {
        Ok((ComponentType::Base(Type::Char), 1))
    } else if c0 == 'D' {
        Ok((ComponentType::Base(Type::Double), 1))
    } else if c0 == 'F' {
        Ok((ComponentType::Base(Type::Float), 1))
    } else if c0 == 'I' {
        Ok((ComponentType::Base(Type::Integer), 1))
    } else if c0 == 'J' {
        Ok((ComponentType::Base(Type::Long), 1))
    } else if c0 == 'S' {
        Ok((ComponentType::Base(Type::Short), 1))
    } else if c0 == 'Z' {
        Ok((ComponentType::Base(Type::Boolean), 1))
    } else if c0 == 'V' {
        Ok((ComponentType::Base(Type::Void), 1))
    } else {
        Err(DescriptorError::InvalidChar(c0))
    }
}

/// Parses a field descriptor starting at `start`, returning it with the
/// position of the first character after it.
#[verifier::loop_isolation(false)]
pub fn parse_field_descriptor_at_position(descriptor: &str, start: usize) -> (r: Result<
    (FieldDescriptor, usize),
    DescriptorError,
>)
    ensures
        match r {
            Ok((fd, used)) => spec_parse_field_descriptor_at(descriptor@, start as int) == Ok::<
                _,
                DescriptorError,
            >((fd@, used as int)),
            Err(e) => spec_parse_field_descriptor_at(descriptor@, start as int) == Err::<
                (SpecFieldDescriptor, int),
                _,
            >(e),
        },
{
    let len = descriptor.unicode_len();
    if start >= len {
        return Err(DescriptorError::UnexpectedEnd);
    }
    let ghost s = descriptor@;
    let mut pos: usize = start;
    let mut count: usize = 0;
    while pos < len && descriptor.get_char(pos) == '['
        invariant
            start <= pos <= len == s.len(),
            count == pos - start,
            count <= 255,
            bracket_run(s, start as int) == count + bracket_run(s, pos as int),
        decreases len - pos,
    {
        proof {
            assert(bracket_run(s, pos as int) == 1 + bracket_run(s, pos + 1));
        }
        count = count + 1;
        pos = pos + 1;
        if count > 255 {
            proof {
                lemma_bracket_run_nonneg(s, pos as int);
            }
            return Err(DescriptorError::TooManyArrayDimensions);
        }
    }
    proof {
        assert(bracket_run(s, pos as int) == 0);
        assert(bracket_run(s, start as int) == count);
    }
    if pos >= len {
        return Err(DescriptorError::UnexpectedEnd);
    }
    let rest = descriptor.substring_char(pos, len);
    match parse_component_type(rest) {
        Err(e) => Err(e),
        Ok((component, consumed)) => {
            proof {
                lemma_parse_component_bounds(rest@);
            }
            let array_dimension: Option<u8> = if count > 0 {
                Some(count as u8)
            } else {
                None
            };
            let fd = FieldDescriptor { element_type: component, array_dimension };
            Ok((fd, pos + consumed))
        },
    }
}

/// Parses a complete field descriptor; trailing characters are an error.
pub fn parse_field_descriptor(descriptor: &str) -> (r: Result<FieldDescriptor, DescriptorError>)
    ensures
        match r {
            Ok(fd) => spec_parse_field_descriptor(descriptor@) == Ok::<_, DescriptorError>(fd@),
            Err(e) => spec_parse_field_descriptor(descriptor@) == Err::<SpecFieldDescriptor, _>(e),
        },
{
    match parse_field_descriptor_at_position(descriptor, 0) {
        Err(e) => Err(e),
        Ok((fd, consumed)) => {
            proof {
                lemma_parse_field_at_bounds(descriptor@, 0);
            }
            if consumed != descriptor.unicode_len() {
                Err(DescriptorError::InvalidChar(descriptor.get_char(consumed)))
            } else {
                Ok(fd)
            }
        },
    }
}

/// Parses a complete method descriptor: a parenthesised parameter list
/// followed by a return descriptor, where `V` means no return value.
#[verifier::loop_isolation(false)]
pub fn parse_method_descriptor(descriptor: &str) -> (r: Result<MethodDescriptor, DescriptorError>)
    ensures
        match r {
            Ok(md) => spec_parse_method_descriptor(descriptor@) == Ok::<_, DescriptorError>(md@),
            Err(e) => spec_parse_method_descriptor(descriptor@) == Err::<SpecMethodDescriptor, _>(
                e,
            ),
        },
{
    let len = descriptor.unicode_len();
    if len == 0 {
        return Err(DescriptorError::UnexpectedEnd);
    }
    if descriptor.get_char(0) != '(' {
        return Err(DescriptorError::MissingOpenParen);
    }
    let close = match find_char(descriptor, 0, ')') {
        None => {
            return Err(DescriptorError::MissingCloseParen);
        },
        Some(k) => k,
    };
    proof {
        lemma_find_char_from_bounds(descriptor@, 0, ')');
    }
    let parameter_section = descriptor.substring_char(1, close);
    let return_section = descriptor.substring_char(close + 1, len);
    let ghost sec = parameter_section@;

    let sec_len = parameter_section.unicode_len();
    let mut parameters: Vec<FieldDescriptor> = Vec::new();
    let mut pos: usize = 0;
    while pos < sec_len
        invariant
            0 <= pos <= sec_len == sec.len(),
            sec == parameter_section@,
            parameter_section@ == descriptor@.subrange(1, close as int),
            spec_parse_params(sec, 0) == match spec_parse_params(sec, pos as int) {
                Ok(rest) => Ok::<_, DescriptorError>(
                    Seq::new(parameters@.len(), |i: int| parameters@[i]@) + rest,
                ),
                Err(e) => Err(e),
            },
        decreases sec_len - pos,
    {
        match parse_field_descriptor_at_position(parameter_section, pos) {
            Err(e) => {
                return Err(e);
            },
            Ok((param, consumed)) => {
                proof {
                    lemma_parse_field_at_bounds(sec, pos as int);
                }
                let ghost old_params = parameters@;
                parameters.push(param);
                proof {
                    let rest_old = spec_parse_params(sec, pos as int);
                    assert(Seq::new(old_params.len(), |i: int| old_params[i]@).push(param@)
                        =~= Seq::new(parameters@.len(), |i: int| parameters@[i]@));
                    if spec_parse_params(sec, consumed as int) is Ok {
                        let rest = spec_parse_params(sec, consumed as int)->Ok_0;
                        assert(Seq::new(old_params.len(), |i: int| old_params[i]@) + (seq![param@]
                            + rest) =~= Seq::new(parameters@.len(), |i: int| parameters@[i]@)
                            + rest);
                    }
                }
                pos = consumed;
            },
        }
    }
    proof {
        assert(spec_parse_params(sec, pos as int) == Ok::<_, DescriptorError>(
            Seq::<SpecFieldDescriptor>::empty(),
        ));
        assert(Seq::new(parameters@.len(), |i: int| parameters@[i]@)
            + Seq::<SpecFieldDescriptor>::empty() =~= Seq::new(
            parameters@.len(),
            |i: int| parameters@[i]@,
        ));
    }

    let ret_len = return_section.unicode_len();
    if ret_len == 0 {
        return Err(DescriptorError::UnexpectedEnd);
    }
    if ret_len == 1 && return_section.get_char(0) == 'V' {
        proof {
            assert(return_section@ =~= seq!['V']);
        }
        return Ok(MethodDescriptor { parameters, return_type: None });
    }
    proof {
        assert(return_section@ != seq!['V']);
    }
    match parse_field_descriptor(return_section) {
        Err(e) => Err(e),
        Ok(rd) => Ok(MethodDescriptor { parameters, return_type: Some(rd) }),
    }
}

} // verus!
