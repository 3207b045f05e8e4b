//! The layout of a program's window, and how it is found in the syntax tree.

use vstd::prelude::*;

use crate::ast::{Declaracion, Expresion};
use crate::decimal::{decimal_de_entero, Decimal};
use crate::texto::{entero_a_texto, mismo_texto, texto_de_entero, unir};

verus! {

/// A layout: widgets and how they are put together.
#[derive(Debug)]
pub enum Layout {
    Column { children: Vec<Layout>, gap: Decimal },
    Row { children: Vec<Layout>, gap: Decimal },
    ZStack(Vec<Layout>),
    Label { texto: String },
    VariableLabel { variable: String },
    Button { texto: String, callback: String },
    TextInput { variable: String, placeholder: String },
    Title(String),
    Spacer(Decimal),
    /// A call that is no known widget, by a description of it.
    Unimplemented(String),
}

/// What a [`Layout`] stands for.
pub enum Diseno {
    Column { children: Seq<Diseno>, gap: Decimal },
    Row { children: Seq<Diseno>, gap: Decimal },
    ZStack(Seq<Diseno>),
    Label { texto: Seq<char> },
    VariableLabel { variable: Seq<char> },
    Button { texto: Seq<char>, callback: Seq<char> },
    TextInput { variable: Seq<char>, placeholder: Seq<char> },
    Title(Seq<char>),
    Spacer(Decimal),
    Unimplemented(Seq<char>),
}

/// What a layout stands for.
pub open spec fn diseno(l: Layout) -> Diseno
    decreases l,
{
    match l {
        Layout::Column { children, gap } => Diseno::Column { children: disenos(children@), gap },
        Layout::Row { children, gap } => Diseno::Row { children: disenos(children@), gap },
        Layout::ZStack(children) => Diseno::ZStack(disenos(children@)),
        Layout::Label { texto } => Diseno::Label { texto: texto@ },
        Layout::VariableLabel { variable } => Diseno::VariableLabel { variable: variable@ },
        Layout::Button { texto, callback } => Diseno::Button {
            texto: texto@,
            callback: callback@,
        },
        Layout::TextInput { variable, placeholder } => Diseno::TextInput {
            variable: variable@,
            placeholder: placeholder@,
        },
        Layout::Title(t) => Diseno::Title(t@),
        Layout::Spacer(d) => Diseno::Spacer(d),
        Layout::Unimplemented(t) => Diseno::Unimplemented(t@),
    }
}

/// What a sequence of layouts stands for.
pub open spec fn disenos(ls: Seq<Layout>) -> Seq<Diseno>
    decreases ls,
{
    Seq::new(
        ls.len(),
        |i: int|
            if 0 <= i < ls.len() {
                diseno(ls[i])
            } else {
                arbitrary()
            },
    )
}

impl View for Layout {
    type V = Diseno;

    open spec fn view(&self) -> Diseno {
        diseno(*self)
    }
}

impl Clone for Layout {
    fn clone(&self) -> (r: Self)
        ensures
            r@ == self@,
    {
        copiar(self)
    }
}

fn copiar(l: &Layout) -> (r: Layout)
    ensures
        r@ == l@,
    decreases *l, 1nat,
{
    match l {
        Layout::Column { children, gap } => Layout::Column {
            children: copiar_todos(children),
            gap: *gap,
        },
        Layout::Row { children, gap } => Layout::Row {
            children: copiar_todos(children),
            gap: *gap,
        },
        Layout::ZStack(children) => Layout::ZStack(copiar_todos(children)),
        Layout::Label { texto } => Layout::Label { texto: texto.clone() },
        Layout::VariableLabel { variable } => Layout::VariableLabel { variable: variable.clone() },
        Layout::Button { texto, callback } => Layout::Button {
            texto: texto.clone(),
            callback: callback.clone(),
        },
        Layout::TextInput { variable, placeholder } => Layout::TextInput {
            variable: variable.clone(),
            placeholder: placeholder.clone(),
        },
        Layout::Title(t) => Layout::Title(t.clone()),
        Layout::Spacer(d) => Layout::Spacer(*d),
        Layout::Unimplemented(t) => Layout::Unimplemented(t.clone()),
    }
}

fn copiar_todos(ls: &Vec<Layout>) -> (r: Vec<Layout>)
    ensures
        disenos(r@) == disenos(ls@),
    decreases ls@, 0nat,
{
    let mut salida: Vec<Layout> = Vec::new();
    let mut i: usize = 0;
    while i < ls.len()
        invariant
            i <= ls@.len(),
            salida@.len() == i,
            forall|k: int| 0 <= k < i ==> diseno(#[trigger] salida@[k]) == diseno(ls@[k]),
        decreases ls@.len() - i,
    {
        salida.push(copiar(&ls[i]));
        i = i + 1;
    }
    assert(disenos(salida@) =~= disenos(ls@));
    salida
}

/// The kinds of call that make a widget.
#[derive(Debug, Clone, Copy, PartialEq, Eq, Structural)]
pub enum Clase {
    Columna,
    Fila,
    Pila,
    Etiqueta,
    Titulo,
    EtiquetaDinamica,
    Boton,
    Entrada,
    Espacio,
    Desconocida,
}

/// The kind of widget that a function's name makes.
pub open spec fn clase(nombre: Seq<char>) -> Clase {
    if nombre == "columna"@ || nombre == "gui_columna"@ || nombre == "Column"@ {
        Clase::Columna
    } else if nombre == "fila"@ || nombre == "gui_fila"@ || nombre == "Row"@ {
        Clase::Fila
    } else if nombre == "pila"@ || nombre == "gui_pila"@ || nombre == "zstack"@ || nombre
        == "ZStack"@ {
        Clase::Pila
    } else if nombre == "escribir"@ || nombre == "etiqueta"@ || nombre == "label"@ || nombre
        == "text"@ || nombre == "Label"@ {
        Clase::Etiqueta
    } else if nombre == "etiqueta_titulo"@ || nombre == "titulo"@ || nombre == "title"@ || nombre
        == "Title"@ {
        Clase::Titulo
    } else if nombre == "etiqueta_dinamica"@ || nombre == "varlabel"@ || nombre
        == "VariableLabel"@ {
        Clase::EtiquetaDinamica
    } else if nombre == "boton"@ || nombre == "button"@ || nombre == "btn"@ || nombre == "Button"@
        || nombre == "boton_relleno"@ || nombre == "filled_button"@ || nombre == "FilledButton"@ {
        Clase::Boton
    } else if nombre == "entrada_texto"@ || nombre == "text_input"@ || nombre == "input"@ || nombre
        == "TextInput"@ {
        Clase::Entrada
    } else if nombre == "espacio"@ || nombre == "spacer"@ || nombre == "Spacer"@ {
        Clase::Espacio
    } else {
        Clase::Desconocida
    }
}

/// The text of a literal argument; empty if the argument is missing or is none.
pub open spec fn texto_de_argumento(args: Seq<Expresion>, i: int) -> Seq<char> {
    if i < args.len() {
        match args[i] {
            Expresion::LiteralTexto(t) => t@,
            _ => ""@,
        }
    } else {
        ""@
    }
}

/// The variable that an argument names, by identifier or by text; empty if it
/// names none.
pub open spec fn variable_de_argumento(args: Seq<Expresion>, i: int) -> Seq<char> {
    if i < args.len() {
        match args[i] {
            Expresion::Identificador { nombre } => nombre@,
            Expresion::LiteralTexto(t) => t@,
            _ => ""@,
        }
    } else {
        ""@
    }
}

/// The function that an argument names, also through a reference; empty if it
/// names none.
pub open spec fn callback_de_argumento(args: Seq<Expresion>, i: int) -> Seq<char> {
    if i < args.len() {
        match args[i] {
            Expresion::Referencia { expr } => match *expr {
                Expresion::Identificador { nombre } => nombre@,
                _ => ""@,
            },
            Expresion::Identificador { nombre } => nombre@,
            _ => ""@,
        }
    } else {
        ""@
    }
}

/// The size of a spacer: a whole number, else ten.
pub open spec fn tamano_de_espacio(args: Seq<Expresion>) -> Decimal {
    if args.len() > 0 {
        match args[0] {
            Expresion::LiteralNumero(n) => decimal_de_entero(n as int),
            _ => decimal_de_entero(10),
        }
    } else {
        decimal_de_entero(10)
    }
}

/// How an argument is described: texts and whole numbers by themselves.
pub open spec fn descripcion(e: Expresion) -> Seq<char> {
    match e {
        Expresion::LiteralTexto(t) => t@,
        Expresion::LiteralNumero(n) => texto_de_entero(n as int),
        _ => "?"@,
    }
}

/// The descriptions of the first `k` arguments, with commas between them.
pub open spec fn descripciones(args: Seq<Expresion>, k: nat) -> Seq<char>
    decreases k,
{
    if k == 0 {
        ""@
    } else if k == 1 {
        descripcion(args[0])
    } else {
        descripciones(args, (k - 1) as nat) + ", "@ + descripcion(args[k - 1])
    }
}

/// A label's layout, by its first argument: a variable, a text, or else how the
/// compiler prints the argument. Without arguments it takes no room.
pub open spec fn diseno_de_etiqueta(args: Seq<Expresion>, depuracion: Seq<char>) -> Diseno {
    if args.len() > 0 {
        match args[0] {
            Expresion::Identificador { nombre } => Diseno::VariableLabel { variable: nombre@ },
            Expresion::LiteralTexto(t) => Diseno::Label { texto: t@ },
            _ => Diseno::Label { texto: depuracion },
        }
    } else {
        Diseno::Spacer(Decimal { bits: 0 })
    }
}

/// The layout that a call stands for. Every call stands for one.
pub open spec fn diseno_de_llamada(
    nombre: Seq<char>,
    args: Seq<Expresion>,
    depuracion: Seq<char>,
) -> Diseno
    decreases args, 1nat,
{
    match clase(nombre) {
        Clase::Columna => Diseno::Column {
            children: disenos_de(args),
            gap: Decimal { bits: 0 },
        },
        Clase::Fila => Diseno::Row { children: disenos_de(args), gap: Decimal { bits: 0 } },
        Clase::Pila => Diseno::ZStack(disenos_de(args)),
        Clase::Etiqueta => diseno_de_etiqueta(args, depuracion),
        Clase::Titulo => Diseno::Title(texto_de_argumento(args, 0)),
        Clase::EtiquetaDinamica => Diseno::VariableLabel {
            variable: variable_de_argumento(args, 0),
        },
        Clase::Boton => Diseno::Button {
            texto: texto_de_argumento(args, 0),
            callback: callback_de_argumento(args, 1),
        },
        Clase::Entrada => Diseno::TextInput {
            variable: variable_de_argumento(args, 0),
            placeholder: texto_de_argumento(args, 1),
        },
        Clase::Espacio => Diseno::Spacer(tamano_de_espacio(args)),
        Clase::Desconocida => Diseno::Unimplemented(
            nombre + "("@ + descripciones(args, args.len()) + ")"@,
        ),
    }
}

/// The layout that an expression stands for, if it stands for one.
pub open spec fn diseno_de(e: Expresion) -> Option<Diseno>
    decreases e, 0nat,
{
    match e {
        Expresion::LlamadaFuncion { nombre, argumentos, depuracion } => Some(
            diseno_de_llamada(nombre@, argumentos@, depuracion@),
        ),
        Expresion::Identificador { nombre } => Some(Diseno::VariableLabel { variable: nombre@ }),
        Expresion::LiteralTexto(t) => Some(Diseno::Label { texto: t@ }),
        _ => None,
    }
}

/// The layouts of those expressions that stand for one, in order.
pub open spec fn disenos_de(es: Seq<Expresion>) -> Seq<Diseno>
    decreases es, 0nat,
{
    if es.len() == 0 {
        Seq::empty()
    } else {
        let previos = disenos_de(es.subrange(0, es.len() - 1));
        match diseno_de(es[es.len() - 1]) {
            Some(d) => previos.push(d),
            None => previos,
        }
    }
}

/// The layout that a declaration stands for, if it stands for one.
pub open spec fn diseno_de_declaracion(d: Declaracion) -> Option<Diseno> {
    match d {
        Declaracion::LlamadaFuncion { nombre, argumentos, depuracion } => Some(
            diseno_de_llamada(nombre@, argumentos@, depuracion@),
        ),
        Declaracion::Expresion(e) => diseno_de(e),
        _ => None,
    }
}

/// The first layout among the declarations from `i` on.
pub open spec fn primer_diseno(ds: Seq<Declaracion>, i: nat) -> Option<Diseno>
    decreases ds.len() - i,
{
    if i >= ds.len() {
        None
    } else {
        match diseno_de_declaracion(ds[i as int]) {
            Some(d) => Some(d),
            None => primer_diseno(ds, i + 1),
        }
    }
}

/// The layout of a program from declaration `i` on: the first one in a function
/// `main`; an empty column if there is none.
pub open spec fn diseno_de_programa(ds: Seq<Declaracion>, i: nat) -> Diseno
    decreases ds.len() - i,
{
    if i >= ds.len() {
        Diseno::Column { children: Seq::empty(), gap: Decimal { bits: 0 } }
    } else {
        match ds[i as int] {
            Declaracion::Funcion { nombre, cuerpo, .. } => if nombre@ == "main"@
                && primer_diseno(cuerpo@, 0) is Some {
                primer_diseno(cuerpo@, 0)->0
            } else {
                diseno_de_programa(ds, i + 1)
            },
            _ => diseno_de_programa(ds, i + 1),
        }
    }
}

// ---------------------------------------------------------------------------
// From the syntax tree to the layout
// ---------------------------------------------------------------------------

/// The kind of widget that a function's name makes.
pub fn clasificar(nombre: &str) -> (r: Clase)
    ensures
        r == clase(nombre@),
{
    if mismo_texto(nombre, "columna") || mismo_texto(nombre, "gui_columna") || mismo_texto(
        nombre,
        "Column",
    ) {
        Clase::Columna
    } else if mismo_texto(nombre, "fila") || mismo_texto(nombre, "gui_fila") || mismo_texto(
        nombre,
        "Row",
    ) {
        Clase::Fila
    } else if mismo_texto(nombre, "pila") || mismo_texto(nombre, "gui_pila") || mismo_texto(
        nombre,
        "zstack",
    ) || mismo_texto(nombre, "ZStack") {
        Clase::Pila
    } else if mismo_texto(nombre, "escribir") || mismo_texto(nombre, "etiqueta") || mismo_texto(
        nombre,
        "label",
    ) || mismo_texto(nombre, "text") || mismo_texto(nombre, "Label") {
        Clase::Etiqueta
    } else if mismo_texto(nombre, "etiqueta_titulo") || mismo_texto(nombre, "titulo")
        || mismo_texto(nombre, "title") || mismo_texto(nombre, "Title") {
        Clase::Titulo
    } else if mismo_texto(nombre, "etiqueta_dinamica") || mismo_texto(nombre, "varlabel")
        || mismo_texto(nombre, "VariableLabel") {
        Clase::EtiquetaDinamica
    } else if mismo_texto(nombre, "boton") || mismo_texto(nombre, "button") || mismo_texto(
        nombre,
        "btn",
    ) || mismo_texto(nombre, "Button") || mismo_texto(nombre, "boton_relleno") || mismo_texto(
        nombre,
        "filled_button",
    ) || mismo_texto(nombre, "FilledButton") {
        Clase::Boton
    } else if mismo_texto(nombre, "entrada_texto") || mismo_texto(nombre, "text_input")
        || mismo_texto(nombre, "input") || mismo_texto(nombre, "TextInput") {
        Clase::Entrada
    } else if mismo_texto(nombre, "espacio") || mismo_texto(nombre, "spacer") || mismo_texto(
        nombre,
        "Spacer",
    ) {
        Clase::Espacio
    } else {
        Clase::Desconocida
    }
}

/// The text of a literal argument; empty if there is none.
pub fn extraer_texto(args: &Vec<Expresion>, index: usize) -> (r: String)
    ensures
        r@ == texto_de_argumento(args@, index as int),
{
    if index < args.len() {
        match &args[index] {
            Expresion::LiteralTexto(t) => t.clone(),
            _ => "".to_string(),
        }
    } else {
        "".to_string()
    }
}

/// The variable that an argument names; empty if it names none.
pub fn extraer_variable(args: &Vec<Expresion>, index: usize) -> (r: String)
    ensures
        r@ == variable_de_argumento(args@, index as int),
{
    if index < args.len() {
        match &args[index] {
            Expresion::Identificador { nombre } => nombre.clone(),
            Expresion::LiteralTexto(t) => t.clone(),
            _ => "".to_string(),
        }
    } else {
        "".to_string()
    }
}

/// The function that an argument names; empty if it names none.
pub fn extraer_callback(args: &Vec<Expresion>, index: usize) -> (r: String)
    ensures
        r@ == callback_de_argumento(args@, index as int),
{
    if index < args.len() {
        match &args[index] {
            Expresion::Referencia { expr } => match &**expr {
                Expresion::Identificador { nombre } => nombre.clone(),
                _ => "".to_string(),
            },
            Expresion::Identificador { nombre } => nombre.clone(),
            _ => "".to_string(),
        }
    } else {
        "".to_string()
    }
}

/// Whether an argument is the literal "true".
pub fn extraer_booleano(args: &Vec<Expresion>, index: usize) -> (r: bool)
    ensures
        r == (index < args@.len() && args@[index as int] == Expresion::LiteralBooleano(true)),
{
    if index < args.len() {
        match &args[index] {
            Expresion::LiteralBooleano(b) => *b,
            _ => false,
        }
    } else {
        false
    }
}

fn extraer_tamano(args: &Vec<Expresion>) -> (r: Decimal)
    ensures
        r == tamano_de_espacio(args@),
{
    if args.len() > 0 {
        match &args[0] {
            Expresion::LiteralNumero(n) => Decimal::de_entero(*n),
            _ => Decimal::de_entero(10),
        }
    } else {
        Decimal::de_entero(10)
    }
}

fn describir_uno(e: &Expresion) -> (r: String)
    ensures
        r@ == descripcion(*e),
{
    match e {
        Expresion::LiteralTexto(t) => t.clone(),
        Expresion::LiteralNumero(n) => entero_a_texto(*n),
        _ => "?".to_string(),
    }
}

fn describir(nombre: &str, args: &Vec<Expresion>) -> (r: String)
    ensures
        r@ == nombre@ + "("@ + descripciones(args@, args@.len()) + ")"@,
{
    let mut texto = unir(nombre, "(", "");
    proof {
        reveal_strlit("");
        assert(texto@ =~= nombre@ + "("@ + ""@);
    }
    let mut i: usize = 0;
    while i < args.len()
        invariant
            i <= args@.len(),
            texto@ == nombre@ + "("@ + descripciones(args@, i as nat),
        decreases args@.len() - i,
    {
        let ghost previo = descripciones(args@, i as nat);
        if i > 0 {
            texto.append(", ");
        }
        texto.append(describir_uno(&args[i]).as_str());
        proof {
            reveal_strlit("");
            assert(texto@ =~= nombre@ + "("@ + descripciones(args@, (i + 1) as nat));
        }
        i = i + 1;
    }
    texto.append(")");
    texto
}

fn etiqueta(args: &Vec<Expresion>, depuracion: &String) -> (r: Layout)
    ensures
        r@ == diseno_de_etiqueta(args@, depuracion@),
{
    if args.len() > 0 {
        match &args[0] {
            Expresion::Identificador { nombre } => Layout::VariableLabel {
                variable: nombre.clone(),
            },
            Expresion::LiteralTexto(t) => Layout::Label { texto: t.clone() },
            _ => Layout::Label { texto: depuracion.clone() },
        }
    } else {
        Layout::Spacer(Decimal { bits: 0 })
    }
}

/// The layouts of those expressions that stand for one, in order.
pub fn procesar_args(args: &Vec<Expresion>) -> (r: Vec<Layout>)
    ensures
        disenos(r@) == disenos_de(args@),
    decreases args@, 0nat,
{
    let mut salida: Vec<Layout> = Vec::new();
    let mut i: usize = 0;
    assert(disenos(salida@) =~= disenos_de(args@.subrange(0, 0)));
    while i < args.len()
        invariant
            i <= args@.len(),
            disenos(salida@) == disenos_de(args@.subrange(0, i as int)),
        decreases args@.len() - i,
    {
        let ghost previos = salida@;
        match expr_a_layout(&args[i]) {
            Some(l) => {
                salida.push(l);
                assert(disenos(salida@) =~= disenos(previos).push(l@));
            },
            None => {},
        }
        assert(args@.subrange(0, i + 1).subrange(0, i as int) =~= args@.subrange(0, i as int));
        i = i + 1;
    }
    assert(args@.subrange(0, args@.len() as int) =~= args@);
    salida
}

/// The layout that a call stands for.
pub fn llamada_a_layout(nombre: &String, args: &Vec<Expresion>, depuracion: &String) -> (r: Layout)
    ensures
        r@ == diseno_de_llamada(nombre@, args@, depuracion@),
    decreases args@, 1nat,
{
    match clasificar(nombre.as_str()) {
        Clase::Columna => Layout::Column {
            children: procesar_args(args),
            gap: Decimal { bits: 0 },
        },
        Clase::Fila => Layout::Row { children: procesar_args(args), gap: Decimal { bits: 0 } },
        Clase::Pila => Layout::ZStack(procesar_args(args)),
        Clase::Etiqueta => etiqueta(args, depuracion),
        Clase::Titulo => Layout::Title(extraer_texto(args, 0)),
        Clase::EtiquetaDinamica => Layout::VariableLabel { variable: extraer_variable(args, 0) },
        Clase::Boton => Layout::Button {
            texto: extraer_texto(args, 0),
            callback: extraer_callback(args, 1),
        },
        Clase::Entrada => Layout::TextInput {
            variable: extraer_variable(args, 0),
            placeholder: extraer_texto(args, 1),
        },
        Clase::Espacio => Layout::Spacer(extraer_tamano(args)),
        Clase::Desconocida => Layout::Unimplemented(describir(nombre.as_str(), args)),
    }
}

/// What an optional layout stands for.
pub open spec fn diseno_opcional(l: Option<Layout>) -> Option<Diseno> {
    match l {
        Some(l) => Some(l@),
        None => None,
    }
}

/// The layout that an expression stands for, if it stands for one.
pub fn expr_a_layout(expr: &Expresion) -> (r: Option<Layout>)
    ensures
        diseno_opcional(r) == diseno_de(*expr),
    decreases *expr, 0nat,
{
    match expr {
        Expresion::LlamadaFuncion { nombre, argumentos, depuracion } => Some(
            llamada_a_layout(nombre, argumentos, depuracion),
        ),
        Expresion::Identificador { nombre } => Some(
            Layout::VariableLabel { variable: nombre.clone() },
        ),
        Expresion::LiteralTexto(t) => Some(Layout::Label { texto: t.clone() }),
        _ => None,
    }
}

fn primer_layout(cuerpo: &Vec<Declaracion>) -> (r: Option<Layout>)
    ensures
        diseno_opcional(r) == primer_diseno(cuerpo@, 0),
{
    let mut i: usize = 0;
    while i < cuerpo.len()
        invariant
            i <= cuerpo@.len(),
            primer_diseno(cuerpo@, 0) == primer_diseno(cuerpo@, i as nat),
        decreases cuerpo@.len() - i,
    {
        match &cuerpo[i] {
            Declaracion::LlamadaFuncion { nombre, argumentos, depuracion } => {
                return Some(llamada_a_layout(nombre, argumentos, depuracion));
            },
            Declaracion::Expresion(e) => {
                if let Some(l) = expr_a_layout(e) {
                    return Some(l);
                }
            },
            _ => {},
        }
        i = i + 1;
    }
    None
}

/// The layout of a program: the first one in a function `main`.
pub fn extraer_layout(decls: &[Declaracion]) -> (r: Layout)
    ensures
        r@ == diseno_de_programa(decls@, 0),
{
    let mut i: usize = 0;
    while i < decls.len()
        invariant
            i <= decls@.len(),
            diseno_de_programa(decls@, 0) == diseno_de_programa(decls@, i as nat),
        decreases decls@.len() - i,
    {
        if let Declaracion::Funcion { nombre, cuerpo, .. } = &decls[i] {
            if mismo_texto(nombre.as_str(), "main") {
                if let Some(l) = primer_layout(cuerpo) {
                    return l;
                }
            }
        }
        i = i + 1;
    }
    let children: Vec<Layout> = Vec::new();
    assert(disenos(children@) =~= Seq::<Diseno>::empty());
    Layout::Column { children, gap: Decimal { bits: 0 } }
}

} // verus!
